//! One synchronisation pass between the remote catalog and the local store.
//!
//! The pass asks the catalog for the upload list page by page, newest first,
//! and for the details of each page's videos. It keeps the videos that it
//! does not know yet, stops paging once a page names a video that it knows,
//! then reads the store, and ends with the records to persist and the list to
//! deliver. The library decides; the caller does what each action asks for
//! and hands back what came of it.
//!
//! Stopping at the first page that names a known video rests on the feed
//! being newest first and never changing behind what was taken in. A video
//! that the catalog later puts behind a known one is not found by a pass.

use vstd::prelude::*;
use crate::catalog::batch_views;
use crate::catalog::batches;
use crate::catalog::get_video_ids_from_playlist;
use crate::catalog::id_views;
use crate::catalog::kept_are_complete;
use crate::catalog::listed_ids;
use crate::catalog::records_of;
use crate::catalog::split_into_batches;
use crate::catalog::video_views;
use crate::catalog::videos_from_details;
use crate::catalog::FetchError;
use crate::catalog::PlaylistPage;
use crate::catalog::RemoteVideo;
use crate::catalog::REQUEST_LIMIT;
use crate::model::video_of_row;
use crate::model::CtcVideo;
use crate::model::CtcVideoRow;
use crate::model::VideoId;
use crate::model::VideoView;
use crate::seqs::lemma_filter_empty;
use crate::seqs::lemma_filter_members;
use crate::seqs::lemma_filter_push;
use crate::sorting::sort_by_duration;
use crate::sorting::sort_videos;
use crate::sorting::sorted_by_duration;
use crate::text::text_view;

verus! {

/// Why a request to the record store failed.
#[derive(Debug, Clone, Copy, PartialEq, Eq, Structural)]
pub enum StoreError {
    /// The store could not be read.
    Read,
    /// The store could not be written.
    Write,
}

/// What the pass is waiting for.
#[derive(Debug, Clone, Copy, PartialEq, Eq, Structural)]
pub enum SyncPhase {
    /// A page of the upload list.
    AwaitingPage,
    /// The details of the videos of the page that came last.
    AwaitingDetails,
    /// The records of the store.
    AwaitingStore,
}

/// The state of a pass, as mathematical values.
pub struct SyncView {
    /// The identifiers that had a completion flag before the pass began.
    pub frontier: Set<Seq<char>>,
    /// The frontier and the identifiers of the videos collected so far.
    pub known: Set<Seq<char>>,
    /// The videos that the pass has found new, in the order of the feed.
    pub collected: Seq<VideoView>,
    /// The page that came last names a known video.
    pub stop_paging: bool,
    /// The token of the page after the one that came last.
    pub next_page_token: Option<Seq<char>>,
    /// What the pass is waiting for.
    pub phase: SyncPhase,
    /// The catalog has answered a request of this pass with an error.
    pub api_error: bool,
}

/// The identifiers of a run of videos.
pub open spec fn ids_of(videos: Seq<VideoView>) -> Set<Seq<char>> {
    Set::new(|id: Seq<char>| exists|i: int| 0 <= i < videos.len() && (#[trigger] videos[i]).id == id)
}

/// One of the identifiers is known.
pub open spec fn hits_known(ids: Seq<Seq<char>>, known: Set<Seq<char>>) -> bool {
    exists|i: int| 0 <= i < ids.len() && known.contains(#[trigger] ids[i])
}

/// The videos whose identifier is not in `known`, as a predicate value.
pub open spec fn unknown_to(known: Set<Seq<char>>) -> spec_fn(VideoView) -> bool {
    |video: VideoView| !known.contains(video.id)
}

/// The videos whose identifier is not in `known`, in order.
pub open spec fn retain_unknown(videos: Seq<VideoView>, known: Set<Seq<char>>) -> Seq<VideoView> {
    videos.filter(unknown_to(known))
}

/// The identifiers that a page of the upload list names.
pub open spec fn page_ids(page: PlaylistPage) -> Seq<Seq<char>> {
    match page.items {
        Some(items) => listed_ids(items@),
        None => Seq::empty(),
    }
}

/// The details that came back, batch after batch; a batch whose request
/// failed adds nothing.
pub open spec fn answered(answers: Seq<Result<Vec<RemoteVideo>, FetchError>>) -> Seq<RemoteVideo>
    decreases answers.len(),
{
    if answers.len() == 0 {
        Seq::empty()
    } else {
        answered(answers.drop_last()) + match answers.last() {
            Ok(details) => details@,
            Err(_) => Seq::empty(),
        }
    }
}

/// One of the batches was answered by the catalog with an error.
pub open spec fn any_api_error(answers: Seq<Result<Vec<RemoteVideo>, FetchError>>) -> bool {
    exists|i: int| 0 <= i < answers.len() && #[trigger] answers[i] == Err::<
        Vec<RemoteVideo>,
        FetchError,
    >(FetchError::Api)
}

/// The state in which a pass begins: nothing collected, and known is what
/// had a completion flag.
pub open spec fn started(frontier: Set<Seq<char>>) -> SyncView {
    SyncView {
        frontier,
        known: frontier,
        collected: Seq::empty(),
        stop_paging: false,
        next_page_token: None,
        phase: SyncPhase::AwaitingPage,
        api_error: false,
    }
}

/// The state after a page request was answered. A failed request ends the
/// paging. A page is remembered by its next-page token and by whether it
/// names a known video; its details are asked for next.
pub open spec fn after_page(s: SyncView, answer: Result<PlaylistPage, FetchError>) -> SyncView {
    match answer {
        Ok(page) => SyncView {
            stop_paging: hits_known(page_ids(page), s.known),
            next_page_token: text_view(page.next_page_token),
            phase: SyncPhase::AwaitingDetails,
            ..s
        },
        Err(error) => SyncView {
            phase: SyncPhase::AwaitingStore,
            api_error: s.api_error || error == FetchError::Api,
            ..s
        },
    }
}

/// The state after the details of a page came back. The records of the
/// videos that are kept and not yet known are collected and become known.
/// Paging goes on unless the page named a known video or was the last.
pub open spec fn after_details(
    s: SyncView,
    answers: Seq<Result<Vec<RemoteVideo>, FetchError>>,
) -> SyncView {
    let fresh = retain_unknown(records_of(answered(answers)), s.known);
    SyncView {
        known: s.known + ids_of(fresh),
        collected: s.collected + fresh,
        phase: if s.stop_paging || s.next_page_token is None {
            SyncPhase::AwaitingStore
        } else {
            SyncPhase::AwaitingPage
        },
        api_error: s.api_error || any_api_error(answers),
        ..s
    }
}

/// The videos that a run of stored rows stands for.
pub open spec fn videos_of_rows(rows: Seq<CtcVideoRow>) -> Seq<VideoView> {
    Seq::new(rows.len(), |i: int| video_of_row(rows[i]@))
}

/// The videos that the store gave; a store that could not be read gives none.
pub open spec fn stored_videos(stored: Result<Vec<CtcVideoRow>, StoreError>) -> Seq<VideoView> {
    match stored {
        Ok(rows) => videos_of_rows(rows@),
        Err(_) => Seq::empty(),
    }
}

/// The working set at the end of a pass: the collected videos, then those of
/// the store.
pub open spec fn combined(
    s: SyncView,
    stored: Result<Vec<CtcVideoRow>, StoreError>,
) -> Seq<VideoView> {
    s.collected + stored_videos(stored)
}

/// The records to persist, each with a fresh completion flag: the videos of
/// the working set whose identifier had no flag before the pass.
pub open spec fn records_to_persist(
    s: SyncView,
    stored: Result<Vec<CtcVideoRow>, StoreError>,
) -> Seq<VideoView> {
    retain_unknown(combined(s, stored), s.frontier)
}

/// The list to deliver: the working set ordered by length.
pub open spec fn delivery(
    s: SyncView,
    stored: Result<Vec<CtcVideoRow>, StoreError>,
) -> Seq<VideoView> {
    sort_by_duration(combined(s, stored))
}

/// What the caller is to do next.
pub enum SyncAction {
    /// Ask the catalog for the page of the upload list with this token, or
    /// for the first page.
    FetchPage { page_token: Option<String> },
    /// Ask the catalog for the details of these videos, one request per
    /// batch.
    FetchDetails { batches: Vec<Vec<VideoId>> },
    /// Read every video record of the store.
    ReadStore,
}

/// What a pass ends with.
pub struct SyncOutcome {
    /// The records to write to the store, each together with a completion
    /// flag that says "not completed".
    pub to_persist: Vec<CtcVideo>,
    /// The list to hand to the consumer.
    pub delivered: Vec<CtcVideo>,
    /// The catalog has answered a request of the pass with an error.
    pub api_error: bool,
}

/// A synchronisation pass in progress.
pub struct Synchronizer {
    frontier: Vec<VideoId>,
    known: Vec<VideoId>,
    collected: Vec<CtcVideo>,
    stop_paging: bool,
    next_page_token: Option<String>,
    phase: SyncPhase,
    api_error: bool,
}

impl View for Synchronizer {
    type V = SyncView;

    closed spec fn view(&self) -> SyncView {
        SyncView {
            frontier: id_views(self.frontier@).to_set(),
            known: id_views(self.known@).to_set(),
            collected: video_views(self.collected@),
            stop_paging: self.stop_paging,
            next_page_token: text_view(self.next_page_token),
            phase: self.phase,
            api_error: self.api_error,
        }
    }
}

/// Tests whether `id` is among `known`.
pub fn is_known(known: &Vec<VideoId>, id: &VideoId) -> (b: bool)
    ensures
        b == id_views(known@).to_set().contains(id@),
{
    let mut i: usize = 0;
    while i < known.len()
        invariant
            i <= known.len(),
            forall|k: int| 0 <= k < i ==> id_views(known@)[k] != id@,
        decreases known.len() - i,
    {
        if known[i] == *id {
            assert(id_views(known@)[i as int] == id@);
            return true;
        }
        i += 1;
    }
    false
}

/// Tests whether one of `ids` is among `known`.
pub fn any_known(ids: &Vec<VideoId>, known: &Vec<VideoId>) -> (b: bool)
    ensures
        b == hits_known(id_views(ids@), id_views(known@).to_set()),
{
    let mut i: usize = 0;
    while i < ids.len()
        invariant
            i <= ids.len(),
            forall|k: int|
                0 <= k < i ==> !id_views(known@).to_set().contains(#[trigger] id_views(ids@)[k]),
        decreases ids.len() - i,
    {
        if is_known(known, &ids[i]) {
            assert(id_views(known@).to_set().contains(id_views(ids@)[i as int]));
            return true;
        }
        i += 1;
    }
    false
}

/// The identifiers of `a` followed by `b` are those of `a` and those of `b`.
pub proof fn lemma_id_set_of_concat(a: Seq<VideoId>, b: Seq<VideoId>)
    ensures
        id_views(a + b).to_set() == id_views(a).to_set() + id_views(b).to_set(),
{
    let whole = id_views(a + b);
    assert forall|id: Seq<char>| whole.to_set().contains(id) <==> (id_views(a).to_set()
        + id_views(b).to_set()).contains(id) by {
        if whole.to_set().contains(id) {
            let k = choose|k: int| 0 <= k < whole.len() && whole[k] == id;
            if k < a.len() {
                assert(id_views(a)[k] == id);
            } else {
                assert(id_views(b)[k - a.len()] == id);
            }
        }
        if id_views(a).to_set().contains(id) {
            let k = choose|k: int| 0 <= k < a.len() && id_views(a)[k] == id;
            assert(whole[k] == id);
        }
        if id_views(b).to_set().contains(id) {
            let k = choose|k: int| 0 <= k < b.len() && id_views(b)[k] == id;
            assert(whole[a.len() + k] == id);
        }
    }
    assert(whole.to_set() =~= id_views(a).to_set() + id_views(b).to_set());
}

/// What the pass asks for while it is in the state `s`.
pub open spec fn asks_for(s: SyncView, action: SyncAction) -> bool {
    match s.phase {
        SyncPhase::AwaitingPage => action matches SyncAction::FetchPage { page_token }
            && text_view(page_token) == s.next_page_token,
        SyncPhase::AwaitingDetails => action is FetchDetails,
        SyncPhase::AwaitingStore => action is ReadStore,
    }
}

/// In every batch that came back, the videos that are kept have the parts
/// that a record needs.
pub open spec fn answers_are_usable(answers: Seq<Result<Vec<RemoteVideo>, FetchError>>) -> bool {
    forall|i: int|
        0 <= i < answers.len() ==> ((#[trigger] answers[i]) matches Ok(details)
            ==> kept_are_complete(details@))
}

impl Synchronizer {
    /// Begins a pass. `known_ids` are the identifiers that have a completion
    /// flag; the first thing to do is to fetch the first page.
    pub fn start(known_ids: Vec<VideoId>) -> (begun: (Synchronizer, SyncAction))
        ensures
            begun.0@ == started(id_views(known_ids@).to_set()),
            asks_for(begun.0@, begun.1),
    {
        let mut known: Vec<VideoId> = Vec::new();
        let mut i: usize = 0;
        while i < known_ids.len()
            invariant
                i <= known_ids.len(),
                id_views(known@) =~= id_views(known_ids@).take(i as int),
            decreases known_ids.len() - i,
        {
            let ghost copied = id_views(known@);
            known.push(known_ids[i].clone());
            assert(id_views(known@) =~= copied.push(known_ids@[i as int]@));
            i += 1;
        }
        assert(id_views(known@) =~= id_views(known_ids@));
        let pass = Synchronizer {
            frontier: known_ids,
            known,
            collected: Vec::new(),
            stop_paging: false,
            next_page_token: None,
            phase: SyncPhase::AwaitingPage,
            api_error: false,
        };
        assert(pass@.collected =~= Seq::empty());
        (pass, SyncAction::FetchPage { page_token: None })
    }

    /// What the pass is waiting for.
    pub fn phase(&self) -> (phase: SyncPhase)
        ensures
            phase == self@.phase,
    {
        self.phase
    }

    /// Takes the answer to a page request. After a failure the store is read
    /// next. After a page, the details of the videos it names are asked for,
    /// in batches of at most `REQUEST_LIMIT`.
    pub fn on_page(&mut self, answer: Result<PlaylistPage, FetchError>) -> (action: SyncAction)
        requires
            old(self)@.phase == SyncPhase::AwaitingPage,
            answer matches Ok(page) ==> page.items is Some,
        ensures
            final(self)@ == after_page(old(self)@, answer),
            asks_for(final(self)@, action),
            answer matches Ok(page) ==> action matches SyncAction::FetchDetails { batches: groups }
                && batch_views(groups@) == batches(page_ids(page), REQUEST_LIMIT as nat),
    {
        match answer {
            Ok(page) => {
                let ids = get_video_ids_from_playlist(&page);
                self.stop_paging = any_known(&ids, &self.known);
                self.next_page_token = page.next_page_token;
                self.phase = SyncPhase::AwaitingDetails;
                SyncAction::FetchDetails { batches: split_into_batches(ids) }
            },
            Err(error) => {
                self.phase = SyncPhase::AwaitingStore;
                match error {
                    FetchError::Api => {
                        self.api_error = true;
                    },
                    FetchError::Transport => {},
                }
                SyncAction::ReadStore
            },
        }
    }

    /// Takes the answers to the requests for details, one per batch. The
    /// videos that are kept and not yet known are collected and become
    /// known. Then the next page is asked for, or, where the page named a
    /// known video or was the last, the store is read.
    pub fn on_details(&mut self, answers: Vec<Result<Vec<RemoteVideo>, FetchError>>) -> (action:
        SyncAction)
        requires
            old(self)@.phase == SyncPhase::AwaitingDetails,
            answers_are_usable(answers@),
        ensures
            final(self)@ == after_details(old(self)@, answers@),
            asks_for(final(self)@, action),
    {
        let ghost before = self@;
        let ghost all = answers@;
        let mut details: Vec<RemoteVideo> = Vec::new();
        let mut api_error = false;
        proof {
            assert(all.take(0) =~= Seq::empty());
        }
        for answer in it: answers
            invariant
                it.seq() == all,
                answers_are_usable(all),
                details@ == answered(all.take(it.index() as int)),
                kept_are_complete(details@),
                api_error == any_api_error(all.take(it.index() as int)),
        {
            let ghost k = it.index() as int;
            proof {
                assert(all.take(k + 1).drop_last() =~= all.take(k));
                assert(all.take(k + 1).last() == all[k]);
                if any_api_error(all.take(k + 1)) && !any_api_error(all.take(k)) {
                    let w = choose|w: int|
                        0 <= w < k + 1 && #[trigger] all.take(k + 1)[w] == Err::<
                            Vec<RemoteVideo>,
                            FetchError,
                        >(FetchError::Api);
                    if w < k {
                        assert(all.take(k)[w] == all.take(k + 1)[w]);
                    }
                }
                if any_api_error(all.take(k)) {
                    let w = choose|w: int|
                        0 <= w < k && #[trigger] all.take(k)[w] == Err::<
                            Vec<RemoteVideo>,
                            FetchError,
                        >(FetchError::Api);
                    assert(all.take(k + 1)[w] == all.take(k)[w]);
                }
            }
            match answer {
                Ok(mut batch) => {
                    assert(kept_are_complete(batch@));
                    details.append(&mut batch);
                },
                Err(error) => {
                    assert(details@ + Seq::<RemoteVideo>::empty() =~= details@);
                    match error {
                        FetchError::Api => {
                            assert(all.take(k + 1)[k] == all[k]);
                            api_error = true;
                        },
                        FetchError::Transport => {},
                    }
                },
            }
        }
        assert(all.take(all.len() as int) =~= all);
        let videos = videos_from_details(details);
        let ghost records = video_views(videos@);
        let ghost known = before.known;
        let mut fresh_ids: Vec<VideoId> = Vec::new();
        proof {
            lemma_filter_empty(unknown_to(known));
            assert(records.take(0) =~= Seq::empty());
            assert(video_views(self.collected@) =~= before.collected + retain_unknown(
                records.take(0),
                known,
            ));
        }
        for video in it: videos
            invariant
                records == video_views(it.seq()),
                known == id_views(self.known@).to_set(),
                video_views(self.collected@) =~= before.collected + retain_unknown(
                    records.take(it.index() as int),
                    known,
                ),
                id_views(fresh_ids@).to_set() =~= ids_of(
                    retain_unknown(records.take(it.index() as int), known),
                ),
                self.frontier == old(self).frontier,
                self.known == old(self).known,
                self.stop_paging == old(self).stop_paging,
                self.next_page_token == old(self).next_page_token,
                self.phase == old(self).phase,
                self.api_error == old(self).api_error,
        {
            let ghost k = it.index() as int;
            let ghost kept = retain_unknown(records.take(k), known);
            let ghost collected = video_views(self.collected@);
            let ghost fresh = id_views(fresh_ids@);
            proof {
                lemma_filter_push(records.take(k), video@, unknown_to(known));
                assert(records.take(k + 1) =~= records.take(k).push(video@));
            }
            if !is_known(&self.known, &video.id) {
                fresh_ids.push(video.id.clone());
                self.collected.push(video);
                proof {
                    let kept_now = kept.push(video@);
                    assert(video_views(self.collected@) =~= collected.push(video@));
                    assert(id_views(fresh_ids@) =~= fresh.push(video@.id));
                    assert forall|id: Seq<char>|
                        id_views(fresh_ids@).to_set().contains(id) <==> ids_of(kept_now).contains(
                            id,
                        ) by {
                        if id_views(fresh_ids@).to_set().contains(id) {
                            let w = choose|w: int|
                                0 <= w < fresh_ids@.len() && id_views(fresh_ids@)[w] == id;
                            if w < fresh.len() {
                                assert(fresh.to_set().contains(fresh[w]));
                                let v = choose|v: int| 0 <= v < kept.len() && kept[v].id == id;
                                assert(kept_now[v].id == id);
                            } else {
                                assert(kept_now[kept.len() as int].id == id);
                            }
                        }
                        if ids_of(kept_now).contains(id) {
                            let v = choose|v: int| 0 <= v < kept_now.len() && kept_now[v].id == id;
                            if v < kept.len() {
                                assert(kept[v].id == id);
                                assert(ids_of(kept).contains(id));
                                let w = choose|w: int| 0 <= w < fresh.len() && fresh[w] == id;
                                assert(id_views(fresh_ids@)[w] == id);
                            } else {
                                assert(id_views(fresh_ids@)[fresh.len() as int] == id);
                            }
                        }
                    }
                }
            }
        }
        assert(records.take(records.len() as int) =~= records);
        proof {
            lemma_id_set_of_concat(self.known@, fresh_ids@);
        }
        self.known.append(&mut fresh_ids);
        self.api_error = self.api_error || api_error;
        if self.stop_paging {
            self.phase = SyncPhase::AwaitingStore;
            SyncAction::ReadStore
        } else {
            match &self.next_page_token {
                Some(token) => {
                    self.phase = SyncPhase::AwaitingPage;
                    SyncAction::FetchPage { page_token: Some(token.clone()) }
                },
                None => {
                    self.phase = SyncPhase::AwaitingStore;
                    SyncAction::ReadStore
                },
            }
        }
    }

    /// Ends the pass with what the store gave. The working set is the
    /// collected videos followed by those of the store. Every video of it
    /// whose identifier had no completion flag before the pass is to be
    /// persisted, and the working set ordered by length is delivered.
    pub fn finish(self, stored: Result<Vec<CtcVideoRow>, StoreError>) -> (outcome: SyncOutcome)
        requires
            self@.phase == SyncPhase::AwaitingStore,
        ensures
            video_views(outcome.to_persist@) == records_to_persist(self@, stored),
            video_views(outcome.delivered@) == delivery(self@, stored),
            sorted_by_duration(video_views(outcome.delivered@)),
            forall|i: int|
                0 <= i < outcome.to_persist.len() ==> !self@.frontier.contains(
                    (#[trigger] outcome.to_persist[i])@.id,
                ),
            outcome.api_error == self@.api_error,
    {
        let ghost collected = video_views(self.collected@);
        let ghost frontier = id_views(self.frontier@).to_set();
        let mut working = self.collected;
        match stored {
            Ok(rows) => {
                let ghost all = rows@;
                proof {
                    assert(videos_of_rows(all.take(0)) =~= Seq::empty());
                }
                for row in it: rows
                    invariant
                        it.seq() == all,
                        video_views(working@) =~= collected + videos_of_rows(
                            all.take(it.index() as int),
                        ),
                {
                    let ghost k = it.index() as int;
                    let ghost so_far = video_views(working@);
                    working.push(CtcVideo::from_row(row));
                    assert(video_views(working@) =~= so_far.push(video_of_row(all[k]@)));
                    assert(videos_of_rows(all.take(k + 1)) =~= videos_of_rows(all.take(k)).push(
                        video_of_row(all[k]@),
                    ));
                }
                assert(all.take(all.len() as int) =~= all);
            },
            Err(_) => {
                assert(collected + Seq::<VideoView>::empty() =~= collected);
            },
        }
        let ghost set = video_views(working@);
        let mut to_persist: Vec<CtcVideo> = Vec::new();
        let mut i: usize = 0;
        proof {
            lemma_filter_empty(unknown_to(frontier));
            assert(set.take(0) =~= Seq::empty());
        }
        while i < working.len()
            invariant
                i <= working.len(),
                set == video_views(working@),
                frontier == id_views(self.frontier@).to_set(),
                video_views(to_persist@) =~= retain_unknown(set.take(i as int), frontier),
            decreases working.len() - i,
        {
            let ghost chosen = video_views(to_persist@);
            proof {
                lemma_filter_push(set.take(i as int), set[i as int], unknown_to(frontier));
                assert(set.take(i + 1) =~= set.take(i as int).push(set[i as int]));
            }
            if !is_known(&self.frontier, &working[i].id) {
                to_persist.push(working[i].clone());
                assert(video_views(to_persist@) =~= chosen.push(set[i as int]));
            }
            i += 1;
        }
        assert(set.take(i as int) =~= set);
        proof {
            lemma_filter_members(set, unknown_to(frontier));
            assert forall|k: int| 0 <= k < to_persist.len() implies !frontier.contains(
                (#[trigger] to_persist[k])@.id,
            ) by {
                assert(to_persist[k]@ == retain_unknown(set, frontier)[k]);
            }
        }
        let delivered = sort_videos(working);
        SyncOutcome { to_persist, delivered, api_error: self.api_error }
    }
}

} // verus!
