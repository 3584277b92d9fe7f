//! A whole synchronisation pass against a given feed and store, and what
//! holds of every such pass.
//!
//! The feed is the list of answers that the catalog gives to the page
//! requests of a pass, first page first, each with the answers to the
//! requests for that page's details. Running the steps of `sync` against it
//! gives the pass as one function, of which the laws below speak.

use vstd::prelude::*;
use crate::catalog::all_well_formed;
use crate::catalog::records_of;
use crate::catalog::FetchError;
use crate::catalog::PlaylistPage;
use crate::catalog::RemoteVideo;
use crate::model::CtcVideoRow;
use crate::model::VideoView;
use crate::seqs::lemma_filter_members;
use crate::seqs::lemma_filter_none;
use crate::sorting::lemma_order_is_determined;
use crate::sorting::lemma_sort_by_duration;
use crate::sorting::of_duration;
use crate::sorting::lemma_sort_keeps_well_formed;
use crate::sorting::sort_by_duration;
use crate::sorting::sorted_by_duration;
use crate::sync::after_details;
use crate::sync::after_page;
use crate::sync::answered;
use crate::sync::combined;
use crate::sync::delivery;
use crate::sync::hits_known;
use crate::sync::ids_of;
use crate::sync::page_ids;
use crate::sync::records_to_persist;
use crate::sync::retain_unknown;
use crate::sync::started;
use crate::sync::stored_videos;
use crate::sync::unknown_to;
use crate::sync::StoreError;
use crate::sync::SyncPhase;
use crate::sync::SyncView;

verus! {

/// What the catalog answers for one page of the upload list: the page, and
/// the answers to the requests for the details of its videos.
pub struct FeedPage {
    pub page: Result<PlaylistPage, FetchError>,
    pub details: Seq<Result<Vec<RemoteVideo>, FetchError>>,
}

/// What a pass did.
pub struct PassReport {
    /// How many page requests were made.
    pub fetches: nat,
    /// The records that were handed out to be persisted, in order.
    pub persisted: Seq<VideoView>,
    /// The list that was delivered.
    pub delivered: Seq<VideoView>,
}

/// The paging of a pass from the state `s`, in which a page is awaited, on
/// with the answers `feed[at..]`: the state in which the store is awaited,
/// and the number of page requests made since the pass began. A request that
/// the feed holds no answer for counts as a request that failed.
pub open spec fn paging(s: SyncView, feed: Seq<FeedPage>, at: nat) -> (SyncView, nat)
    decreases feed.len() - at,
{
    if at >= feed.len() {
        (after_page(s, Err(FetchError::Transport)), at + 1)
    } else {
        let paged = after_page(s, feed[at as int].page);
        if paged.phase != SyncPhase::AwaitingDetails {
            (paged, at + 1)
        } else {
            let detailed = after_details(paged, feed[at as int].details);
            if detailed.phase == SyncPhase::AwaitingPage {
                paging(detailed, feed, at + 1)
            } else {
                (detailed, at + 1)
            }
        }
    }
}

/// A whole pass: begun with the identifiers that have a completion flag, run
/// against the feed, and ended with what the store gives.
pub open spec fn pass(
    frontier: Set<Seq<char>>,
    feed: Seq<FeedPage>,
    stored: Result<Vec<CtcVideoRow>, StoreError>,
) -> PassReport {
    let (end, fetches) = paging(started(frontier), feed, 0);
    PassReport {
        fetches,
        persisted: records_to_persist(end, stored),
        delivered: delivery(end, stored),
    }
}

impl SyncView {
    /// What holds of the state of every pass: known is the frontier and the
    /// identifiers of the collected videos, no collected video had a flag
    /// before the pass, and the links of each are those of its description.
    pub open spec fn consistent(self) -> bool {
        &&& self.known == self.frontier + ids_of(self.collected)
        &&& forall|i: int|
            0 <= i < self.collected.len() ==> !self.frontier.contains(
                (#[trigger] self.collected[i]).id,
            )
        &&& all_well_formed(self.collected)
    }
}

/// The identifiers of two runs of videos, one after the other.
pub proof fn lemma_ids_of_concat(a: Seq<VideoView>, b: Seq<VideoView>)
    ensures
        ids_of(a + b) == ids_of(a) + ids_of(b),
{
    let whole = a + b;
    assert forall|id: Seq<char>| ids_of(whole).contains(id) <==> (ids_of(a) + ids_of(b)).contains(
        id,
    ) by {
        if ids_of(whole).contains(id) {
            let k = choose|k: int| 0 <= k < whole.len() && (#[trigger] whole[k]).id == id;
            if k < a.len() {
                assert(a[k].id == id);
            } else {
                assert(b[k - a.len()].id == id);
            }
        }
        if ids_of(a).contains(id) {
            let k = choose|k: int| 0 <= k < a.len() && (#[trigger] a[k]).id == id;
            assert(whole[k].id == id);
        }
        if ids_of(b).contains(id) {
            let k = choose|k: int| 0 <= k < b.len() && (#[trigger] b[k]).id == id;
            assert(whole[a.len() + k].id == id);
        }
    }
    assert(ids_of(whole) =~= ids_of(a) + ids_of(b));
}

/// A pass begins in a consistent state.
pub proof fn lemma_started_consistent(frontier: Set<Seq<char>>)
    ensures
        started(frontier).consistent(),
{
    assert(ids_of(Seq::<VideoView>::empty()) =~= Set::empty());
    assert(frontier + Set::<Seq<char>>::empty() =~= frontier);
}

/// Taking the details of a page keeps the state consistent, keeps what was
/// collected and adds to its end, and leaves the frontier as it was.
pub proof fn lemma_after_details(s: SyncView, answers: Seq<Result<Vec<RemoteVideo>, FetchError>>)
    requires
        s.consistent(),
    ensures
        after_details(s, answers).consistent(),
        after_details(s, answers).frontier == s.frontier,
        after_details(s, answers).collected == s.collected + retain_unknown(
            records_of(answered(answers)),
            s.known,
        ),
{
    let records = records_of(answered(answers));
    let fresh = retain_unknown(records, s.known);
    let next = after_details(s, answers);
    lemma_filter_members(records, unknown_to(s.known));
    lemma_ids_of_concat(s.collected, fresh);
    assert(next.known =~= next.frontier + ids_of(next.collected));
    assert forall|i: int| 0 <= i < next.collected.len() implies !next.frontier.contains(
        (#[trigger] next.collected[i]).id,
    ) && next.collected[i].well_formed() by {
        if i >= s.collected.len() {
            let video = fresh[i - s.collected.len()];
            assert(!s.known.contains(video.id));
            assert(records.contains(video));
        }
    }
}

/// Paging keeps the state consistent, keeps the frontier, keeps what was
/// collected and adds to its end, and makes at least one request.
pub proof fn lemma_paging(s: SyncView, feed: Seq<FeedPage>, at: nat)
    requires
        s.consistent(),
    ensures
        paging(s, feed, at).0.consistent(),
        paging(s, feed, at).0.frontier == s.frontier,
        paging(s, feed, at).0.collected.len() >= s.collected.len(),
        forall|i: int|
            0 <= i < s.collected.len() ==> paging(s, feed, at).0.collected[i] == s.collected[i],
        paging(s, feed, at).1 > at,
    decreases feed.len() - at,
{
    if at < feed.len() {
        let paged = after_page(s, feed[at as int].page);
        if paged.phase == SyncPhase::AwaitingDetails {
            let detailed = after_details(paged, feed[at as int].details);
            lemma_after_details(paged, feed[at as int].details);
            if detailed.phase == SyncPhase::AwaitingPage {
                lemma_paging(detailed, feed, at + 1);
            }
            let end = paging(s, feed, at).0;
            assert forall|i: int| 0 <= i < s.collected.len() implies end.collected[i]
                == s.collected[i] by {
                assert(detailed.collected[i] == s.collected[i]);
            }
        }
    }
}

/// No identifier that had a completion flag before a pass is among the
/// records that the pass hands out to be persisted.
pub proof fn law_flagged_videos_are_not_persisted(
    frontier: Set<Seq<char>>,
    feed: Seq<FeedPage>,
    stored: Result<Vec<CtcVideoRow>, StoreError>,
)
    ensures
        forall|i: int|
            0 <= i < pass(frontier, feed, stored).persisted.len() ==> !frontier.contains(
                (#[trigger] pass(frontier, feed, stored).persisted[i]).id,
            ),
{
    lemma_started_consistent(frontier);
    lemma_paging(started(frontier), feed, 0);
    let end = paging(started(frontier), feed, 0).0;
    lemma_filter_members(combined(end, stored), unknown_to(frontier));
}

/// In the list that a pass delivers no video stands before a shorter one;
/// the list holds the collected videos and those of the store, each as often
/// as the working set does, and every record in it is well formed.
pub proof fn law_delivery_is_sorted(
    frontier: Set<Seq<char>>,
    feed: Seq<FeedPage>,
    stored: Result<Vec<CtcVideoRow>, StoreError>,
)
    ensures
        sorted_by_duration(pass(frontier, feed, stored).delivered),
        forall|i: int, j: int|
            0 <= i < j < pass(frontier, feed, stored).delivered.len() ==> (#[trigger] pass(
                frontier,
                feed,
                stored,
            ).delivered[i]).duration <= (#[trigger] pass(frontier, feed, stored).delivered[j]).duration,
        pass(frontier, feed, stored).delivered.to_multiset() == combined(
            paging(started(frontier), feed, 0).0,
            stored,
        ).to_multiset(),
        all_well_formed(pass(frontier, feed, stored).delivered),
{
    lemma_started_consistent(frontier);
    lemma_paging(started(frontier), feed, 0);
    let end = paging(started(frontier), feed, 0).0;
    lemma_sort_by_duration(combined(end, stored));
    lemma_sort_keeps_well_formed(combined(end, stored));
}

/// The identifiers that the page `j` of the feed names; a request that failed
/// names none.
pub open spec fn feed_ids(feed: Seq<FeedPage>, j: int) -> Seq<Seq<char>> {
    match feed[j].page {
        Ok(page) => page_ids(page),
        Err(_) => Seq::empty(),
    }
}

/// The records that the details of the page `j` of the feed give.
pub open spec fn feed_records(feed: Seq<FeedPage>, j: int) -> Seq<VideoView> {
    records_of(answered(feed[j].details))
}

/// The page `j` of the feed names a video of which the details of the page
/// `e` give a record.
pub open spec fn names_record_of(feed: Seq<FeedPage>, j: int, e: int) -> bool {
    hits_known(feed_ids(feed, j), ids_of(feed_records(feed, e)))
}

/// The page `j` of the feed was answered and has a page after it.
pub open spec fn has_next_page(feed: Seq<FeedPage>, j: int) -> bool {
    feed[j].page matches Ok(page) && page.next_page_token is Some
}

/// Every identifier that the state knows had a flag before the pass or
/// belongs to a record of one of the pages before `at`.
pub open spec fn knows_only_earlier(s: SyncView, feed: Seq<FeedPage>, at: nat) -> bool {
    forall|id: Seq<char>| #[trigger]
        s.known.contains(id) ==> s.frontier.contains(id) || exists|e: int|
            0 <= e < at && #[trigger] ids_of(feed_records(feed, e)).contains(id)
}

/// Paging from page `at` on ends with the request for page `stop`, when that
/// page is the first to name a known video.
pub proof fn lemma_paging_stops(s: SyncView, feed: Seq<FeedPage>, at: nat, stop: nat)
    requires
        at <= stop < feed.len(),
        s.consistent(),
        knows_only_earlier(s, feed, at),
        feed[stop as int].page is Ok,
        forall|j: int| 0 <= j < stop ==> #[trigger] has_next_page(feed, j),
        hits_known(feed_ids(feed, stop as int), s.frontier),
        forall|j: int| 0 <= j < stop ==> !hits_known(#[trigger] feed_ids(feed, j), s.frontier),
        forall|j: int, e: int| 0 <= e < j < stop ==> !#[trigger] names_record_of(feed, j, e),
    ensures
        paging(s, feed, at).1 == stop + 1,
    decreases stop - at,
{
    let ids = feed_ids(feed, at as int);
    let paged = after_page(s, feed[at as int].page);
    let detailed = after_details(paged, feed[at as int].details);
    if at == stop {
        let i = choose|i: int| 0 <= i < ids.len() && s.frontier.contains(#[trigger] ids[i]);
        assert(s.known.contains(ids[i]));
    } else {
        assert(has_next_page(feed, at as int));
        assert(!hits_known(ids, s.known)) by {
            if hits_known(ids, s.known) {
                let i = choose|i: int| 0 <= i < ids.len() && s.known.contains(#[trigger] ids[i]);
                if s.frontier.contains(ids[i]) {
                    assert(hits_known(feed_ids(feed, at as int), s.frontier));
                } else {
                    let e = choose|e: int|
                        0 <= e < at && #[trigger] ids_of(feed_records(feed, e)).contains(ids[i]);
                    assert(names_record_of(feed, at as int, e));
                }
            }
        }
        lemma_after_details(paged, feed[at as int].details);
        let records = feed_records(feed, at as int);
        let fresh = retain_unknown(records, s.known);
        lemma_filter_members(records, unknown_to(s.known));
        assert forall|id: Seq<char>| #[trigger]
            detailed.known.contains(id) implies detailed.frontier.contains(id) || exists|e: int|
            0 <= e < at + 1 && #[trigger] ids_of(feed_records(feed, e)).contains(id) by {
            if !s.known.contains(id) {
                let i = choose|i: int| 0 <= i < fresh.len() && (#[trigger] fresh[i]).id == id;
                assert(records.contains(fresh[i]));
                let r = choose|r: int| 0 <= r < records.len() && records[r] == fresh[i];
                assert(records[r].id == id);
                assert(ids_of(feed_records(feed, at as int)).contains(id));
            } else if !s.frontier.contains(id) {
                let e = choose|e: int|
                    0 <= e < at && #[trigger] ids_of(feed_records(feed, e)).contains(id);
                assert(ids_of(feed_records(feed, e)).contains(id));
            }
        }
        lemma_paging_stops(detailed, feed, at + 1, stop);
    }
}

/// A pass whose feed names a video with a completion flag first on page
/// `stop` makes exactly `stop + 1` page requests: it asks for the pages up
/// to that one and for no page after it. This is stated for feeds in which
/// the pages up to `stop` are answered, each page before `stop` has a page
/// after it, and no page before `stop` names a video of which an earlier
/// page's details gave a record.
pub proof fn law_paging_stops_at_first_known_page(
    frontier: Set<Seq<char>>,
    feed: Seq<FeedPage>,
    stored: Result<Vec<CtcVideoRow>, StoreError>,
    stop: nat,
)
    requires
        stop < feed.len(),
        feed[stop as int].page is Ok,
        forall|j: int| 0 <= j < stop ==> #[trigger] has_next_page(feed, j),
        hits_known(feed_ids(feed, stop as int), frontier),
        forall|j: int| 0 <= j < stop ==> !hits_known(#[trigger] feed_ids(feed, j), frontier),
        forall|j: int, e: int| 0 <= e < j < stop ==> !#[trigger] names_record_of(feed, j, e),
    ensures
        pass(frontier, feed, stored).fetches == stop + 1,
{
    lemma_started_consistent(frontier);
    lemma_paging_stops(started(frontier), feed, 0, stop);
}

/// Every one of the videos has a completion flag.
pub open spec fn all_flagged(videos: Seq<VideoView>, flags: Set<Seq<char>>) -> bool {
    forall|i: int| 0 <= i < videos.len() ==> flags.contains((#[trigger] videos[i]).id)
}

/// A pass that knows from the start every video that another pass over the
/// same feed comes to collect, collects nothing and makes no more requests
/// than the other. `first` is the state of the other pass and `second` the
/// state of this one, both awaiting the page `at`.
pub proof fn lemma_replay_collects_nothing(
    first: SyncView,
    second: SyncView,
    feed: Seq<FeedPage>,
    at: nat,
)
    requires
        first.consistent(),
        second.collected == Seq::<VideoView>::empty(),
        second.known == second.frontier,
        forall|id: Seq<char>|
            first.frontier.contains(id) || ids_of(paging(first, feed, at).0.collected).contains(id)
                ==> #[trigger] second.frontier.contains(id),
    ensures
        paging(second, feed, at).0.collected == Seq::<VideoView>::empty(),
        paging(second, feed, at).0.frontier == second.frontier,
        paging(second, feed, at).1 <= paging(first, feed, at).1,
    decreases feed.len() - at,
{
    let flags = second.frontier;
    let end = paging(first, feed, at).0;
    lemma_paging(first, feed, at);
    assert forall|id: Seq<char>| first.known.contains(id) implies flags.contains(id) by {
        if !first.frontier.contains(id) {
            let i = choose|i: int|
                0 <= i < first.collected.len() && (#[trigger] first.collected[i]).id == id;
            assert(end.collected[i].id == id);
            assert(ids_of(end.collected).contains(id));
        }
    }
    if at < feed.len() {
        let answer = feed[at as int].page;
        let paged_first = after_page(first, answer);
        let paged_second = after_page(second, answer);
        if paged_first.phase == SyncPhase::AwaitingDetails {
            let details = feed[at as int].details;
            let detailed_first = after_details(paged_first, details);
            let detailed_second = after_details(paged_second, details);
            let records = records_of(answered(details));
            let fresh = retain_unknown(records, first.known);
            lemma_after_details(paged_first, details);
            if detailed_first.phase == SyncPhase::AwaitingPage {
                lemma_paging(detailed_first, feed, at + 1);
            }
            assert forall|i: int| 0 <= i < records.len() implies !unknown_to(flags)(
                #[trigger] records[i],
            ) by {
                let id = records[i].id;
                if !first.known.contains(id) {
                    records.lemma_filter_contains(unknown_to(first.known), i);
                    let j = choose|j: int| 0 <= j < fresh.len() && fresh[j] == records[i];
                    let at_end = first.collected.len() + j;
                    assert(detailed_first.collected[at_end] == records[i]);
                    assert(end.collected[at_end].id == id);
                    assert(ids_of(end.collected).contains(id));
                }
            }
            lemma_filter_none(records, unknown_to(flags));
            assert(detailed_second.collected =~= Seq::<VideoView>::empty());
            assert(ids_of(Seq::<VideoView>::empty()) =~= Set::empty());
            assert(detailed_second.known =~= flags);
            let ids = page_ids(answer->Ok_0);
            if hits_known(ids, first.known) {
                let i = choose|i: int| 0 <= i < ids.len() && first.known.contains(#[trigger] ids[i]);
                assert(flags.contains(ids[i]));
                assert(hits_known(ids, flags));
            }
            if detailed_second.phase == SyncPhase::AwaitingPage {
                lemma_replay_collects_nothing(detailed_first, detailed_second, feed, at + 1);
            }
        }
    }
}

/// Running the pass again over the same feed adds nothing. After a pass,
/// the flags are those from before together with one for each record that
/// the pass handed out to be persisted. If every record that the store then
/// holds has a flag, the next pass persists nothing, makes no more page
/// requests than the first, and delivers the store's records ordered by
/// length; and the pass after that does exactly what the second did.
pub proof fn law_repeated_pass_adds_nothing(
    frontier: Set<Seq<char>>,
    feed: Seq<FeedPage>,
    stored_before: Result<Vec<CtcVideoRow>, StoreError>,
    stored_after: Result<Vec<CtcVideoRow>, StoreError>,
)
    requires
        all_flagged(
            stored_videos(stored_after),
            frontier + ids_of(pass(frontier, feed, stored_before).persisted),
        ),
    ensures
        ({
            let first = pass(frontier, feed, stored_before);
            let flags = frontier + ids_of(first.persisted);
            let second = pass(flags, feed, stored_after);
            &&& second.persisted == Seq::<VideoView>::empty()
            &&& second.fetches <= first.fetches
            &&& second.delivered == sort_by_duration(stored_videos(stored_after))
            &&& pass(flags + ids_of(second.persisted), feed, stored_after) == second
        }),
{
    let first = pass(frontier, feed, stored_before);
    let flags = frontier + ids_of(first.persisted);
    let end = paging(started(frontier), feed, 0).0;
    lemma_started_consistent(frontier);
    lemma_started_consistent(flags);
    lemma_paging(started(frontier), feed, 0);
    let working = combined(end, stored_before);
    assert forall|id: Seq<char>|
        frontier.contains(id) || ids_of(end.collected).contains(id) implies #[trigger] flags.contains(
        id,
    ) by {
        if !frontier.contains(id) {
            let i = choose|i: int|
                0 <= i < end.collected.len() && (#[trigger] end.collected[i]).id == id;
            assert(working[i] == end.collected[i]);
            working.lemma_filter_contains(unknown_to(frontier), i);
            let j = choose|j: int|
                0 <= j < first.persisted.len() && first.persisted[j] == working[i];
            assert(first.persisted[j].id == id);
            assert(ids_of(first.persisted).contains(id));
        }
    }
    lemma_replay_collects_nothing(started(frontier), started(flags), feed, 0);
    let again = paging(started(flags), feed, 0).0;
    let stored = stored_videos(stored_after);
    assert(combined(again, stored_after) =~= stored);
    lemma_filter_none(stored, unknown_to(flags));
    let second = pass(flags, feed, stored_after);
    assert(ids_of(second.persisted) =~= Set::empty());
    assert(flags + ids_of(second.persisted) =~= flags);
}

/// Running the pass again delivers the same list. If the store, after a
/// pass, holds the videos that the pass delivered, and among videos of one
/// length holds them in the order in which the pass delivered them, the
/// next pass over the same feed delivers the list that the first delivered,
/// and persists nothing.
pub proof fn law_repeated_pass_delivers_same_list(
    frontier: Set<Seq<char>>,
    feed: Seq<FeedPage>,
    stored_before: Result<Vec<CtcVideoRow>, StoreError>,
    stored_after: Result<Vec<CtcVideoRow>, StoreError>,
)
    requires
        forall|d: u64| #[trigger]
            stored_videos(stored_after).filter(of_duration(d)) == pass(
                frontier,
                feed,
                stored_before,
            ).delivered.filter(of_duration(d)),
    ensures
        ({
            let first = pass(frontier, feed, stored_before);
            let second = pass(frontier + ids_of(first.persisted), feed, stored_after);
            &&& second.delivered == first.delivered
            &&& second.persisted == Seq::<VideoView>::empty()
        }),
{
    let first = pass(frontier, feed, stored_before);
    let flags = frontier + ids_of(first.persisted);
    let end = paging(started(frontier), feed, 0).0;
    let working = combined(end, stored_before);
    let stored = stored_videos(stored_after);
    lemma_started_consistent(frontier);
    lemma_paging(started(frontier), feed, 0);
    lemma_sort_by_duration(working);
    lemma_sort_by_duration(stored);
    assert forall|i: int| 0 <= i < stored.len() implies flags.contains(
        (#[trigger] stored[i]).id,
    ) by {
        let video = stored[i];
        let d = video.duration;
        stored.lemma_filter_contains(of_duration(d), i);
        let same = working.filter(of_duration(d));
        assert(same == stored.filter(of_duration(d)));
        let k = choose|k: int| 0 <= k < same.len() && same[k] == video;
        lemma_filter_members(working, of_duration(d));
        assert(working.contains(same[k]));
        let w = choose|w: int| 0 <= w < working.len() && working[w] == video;
        if !frontier.contains(video.id) {
            working.lemma_filter_contains(unknown_to(frontier), w);
            let p = choose|p: int|
                0 <= p < first.persisted.len() && first.persisted[p] == working[w];
            assert(first.persisted[p].id == video.id);
            assert(ids_of(first.persisted).contains(video.id));
        }
    }
    law_repeated_pass_adds_nothing(frontier, feed, stored_before, stored_after);
    let second = pass(flags, feed, stored_after);
    assert forall|d: u64| #[trigger]
        second.delivered.filter(of_duration(d)) == first.delivered.filter(of_duration(d)) by {
        assert(stored.filter(of_duration(d)) == first.delivered.filter(of_duration(d)));
    }
    lemma_order_is_determined(second.delivered, first.delivered);
}

} // verus!
