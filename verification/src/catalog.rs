//! The remote catalog as the library sees it: pages of the upload list, the
//! details of videos, and the rules that turn them into video records.

use vstd::prelude::*;
use vstd::string::StringExecFns;
use crate::duration::duration_seconds;
use crate::duration::parse_duration_seconds;
use crate::model::extract_links;
use crate::model::extract_links_from_description;
use crate::model::CtcVideo;
use crate::model::VideoDuration;
use crate::model::VideoId;
use crate::model::VideoPublishDate;
use crate::model::VideoView;
use crate::seqs::lemma_filter_empty;
use crate::seqs::lemma_filter_push;
use crate::text::chars_of;
use crate::text::contains;
use crate::text::has_substring;
use crate::text::string_of;

verus! {

/// The most identifiers that one request for details may name, and the most
/// entries that one page of the upload list may hold.
pub const REQUEST_LIMIT: usize = 50;

/// Why a request to the remote catalog failed.
#[derive(Debug, Clone, Copy, PartialEq, Eq, Structural)]
pub enum FetchError {
    /// The request did not reach the catalog, or no answer came back.
    Transport,
    /// The catalog answered with an error: a bad key, an exhausted quota, an
    /// unknown channel.
    Api,
}

/// How a request to the catalog came to nothing, as the client tells it.
#[derive(Debug, Clone, Copy, PartialEq, Eq, Structural)]
pub enum RequestFailure {
    /// The connection failed.
    Http,
    /// An upload was larger than the catalog takes.
    UploadSizeLimitExceeded,
    /// The catalog did not understand the request and said why.
    BadRequest,
    /// A key was needed and none was there.
    MissingApiKey,
    /// A token was needed and none was there.
    MissingToken,
    /// The request was called off before it was sent.
    Cancelled,
    /// A free parameter of the request clashed with a built-in one.
    FieldClash,
    /// The answer could not be decoded.
    JsonDecode,
    /// The catalog answered with a status other than success.
    Failure,
    /// The answer could not be read.
    Io,
}

/// The kind of error that a failure counts as. The catalog has answered with
/// an error where it said that the request was bad or answered with a status
/// other than success, and where the credential was missing; everything else
/// is a request that did not get through.
pub open spec fn error_of(failure: RequestFailure) -> FetchError {
    match failure {
        RequestFailure::BadRequest
        | RequestFailure::Failure
        | RequestFailure::MissingApiKey
        | RequestFailure::MissingToken => FetchError::Api,
        _ => FetchError::Transport,
    }
}

impl FetchError {
    /// Tells what kind of error a failure counts as.
    pub fn of(failure: RequestFailure) -> (error: FetchError)
        ensures
            error == error_of(failure),
    {
        match failure {
            RequestFailure::BadRequest => FetchError::Api,
            RequestFailure::Failure => FetchError::Api,
            RequestFailure::MissingApiKey => FetchError::Api,
            RequestFailure::MissingToken => FetchError::Api,
            RequestFailure::Http => FetchError::Transport,
            RequestFailure::UploadSizeLimitExceeded => FetchError::Transport,
            RequestFailure::Cancelled => FetchError::Transport,
            RequestFailure::FieldClash => FetchError::Transport,
            RequestFailure::JsonDecode => FetchError::Transport,
            RequestFailure::Io => FetchError::Transport,
        }
    }
}

/// The video that an entry of the upload list points at.
pub struct ResourceId {
    pub video_id: Option<String>,
}

/// The part of an upload-list entry that names its video.
pub struct PlaylistItemSnippet {
    pub resource_id: Option<ResourceId>,
}

/// One entry of the upload list.
pub struct PlaylistItem {
    pub snippet: Option<PlaylistItemSnippet>,
}

/// One page of the upload list, with the token of the page after it.
pub struct PlaylistPage {
    pub items: Option<Vec<PlaylistItem>>,
    pub next_page_token: Option<String>,
}

/// Title, description and publication time of a video as the catalog gives
/// them; the time is in milliseconds since the Unix epoch.
pub struct RemoteSnippet {
    pub title: Option<String>,
    pub description: Option<String>,
    pub published_at: Option<i64>,
}

/// The length of a video as the catalog gives it: an ISO 8601 duration text.
pub struct RemoteContentDetails {
    pub duration: Option<String>,
}

/// The details of one video as the catalog gives them.
pub struct RemoteVideo {
    pub id: Option<String>,
    pub snippet: Option<RemoteSnippet>,
    pub content_details: Option<RemoteContentDetails>,
}

/// The identifier of the upload list of a channel: the channel's identifier
/// with its first two characters replaced by `UU`.
pub open spec fn upload_playlist(channel_id: Seq<char>) -> Seq<char> {
    "UU"@ + if channel_id.len() >= 2 {
        channel_id.skip(2)
    } else {
        Seq::empty()
    }
}

/// Derives the identifier of a channel's upload list.
pub fn get_upload_playlist(channel_id: &str) -> (playlist_id: String)
    ensures
        playlist_id@ == upload_playlist(channel_id@),
{
    let id = chars_of(channel_id);
    let mut rest: Vec<char> = Vec::new();
    let mut i: usize = 2;
    while i < id.len()
        invariant
            2 <= i,
            id.len() >= 2 ==> i <= id.len(),
            id.len() >= 2 ==> rest@ == id@.subrange(2, i as int),
            id.len() < 2 ==> rest@ == Seq::<char>::empty(),
        decreases id.len() - i,
    {
        rest.push(id[i]);
        i += 1;
    }
    let tail = string_of(&rest);
    String::from_str("UU").concat(tail.as_str())
}

/// The video that an upload-list entry names, if it names one.
pub open spec fn item_video_id(item: PlaylistItem) -> Option<Seq<char>> {
    match item.snippet {
        Some(PlaylistItemSnippet { resource_id: Some(ResourceId { video_id: Some(id) }) }) => Some(
            id@,
        ),
        _ => None,
    }
}

/// The video identifiers that a run of upload-list entries names, in order;
/// entries that name no video are passed over.
pub open spec fn listed_ids(items: Seq<PlaylistItem>) -> Seq<Seq<char>>
    decreases items.len(),
{
    if items.len() == 0 {
        Seq::empty()
    } else {
        match item_video_id(items.last()) {
            Some(id) => listed_ids(items.drop_last()).push(id),
            None => listed_ids(items.drop_last()),
        }
    }
}

/// The character sequences of a run of identifiers.
pub open spec fn id_views(ids: Seq<VideoId>) -> Seq<Seq<char>> {
    Seq::new(ids.len(), |i: int| ids[i]@)
}

/// Reads the video identifiers off a page of the upload list.
pub fn get_video_ids_from_playlist(playlist_items: &PlaylistPage) -> (ids: Vec<VideoId>)
    requires
        playlist_items.items is Some,
    ensures
        id_views(ids@) == listed_ids(playlist_items.items->0@),
{
    let mut ids: Vec<VideoId> = Vec::new();
    match &playlist_items.items {
        Some(items) => {
            let mut i: usize = 0;
            while i < items.len()
                invariant
                    i <= items.len(),
                    id_views(ids@) =~= listed_ids(items@.take(i as int)),
                decreases items.len() - i,
            {
                assert(items@.take(i + 1).drop_last() =~= items@.take(i as int));
                assert(items@.take(i + 1).last() == items@[i as int]);
                let ghost before = id_views(ids@);
                match &items[i].snippet {
                    Some(snippet) => match &snippet.resource_id {
                        Some(resource_id) => match &resource_id.video_id {
                            Some(video_id) => {
                                ids.push(VideoId::new(video_id.as_str()));
                                assert(id_views(ids@) =~= before.push(video_id@));
                            },
                            None => {},
                        },
                        None => {},
                    },
                    None => {},
                }
                i += 1;
            }
            assert(items@.take(i as int) =~= items@);
        },
        None => {},
    }
    ids
}

/// A title is on the denylist when it holds one of the markers of content
/// that is no puzzle video.
pub open spec fn is_denylisted(title: Seq<char>) -> bool {
    contains(title, "Wordle"@) || contains(title, "Plusword"@) || contains(title, "Quordle"@)
}

/// Tests whether a title is on the denylist.
pub fn title_is_denylisted(title: &str) -> (b: bool)
    ensures
        b == is_denylisted(title@),
{
    let text = chars_of(title);
    let wordle = chars_of("Wordle");
    if has_substring(&text, &wordle) {
        return true;
    }
    let plusword = chars_of("Plusword");
    if has_substring(&text, &plusword) {
        return true;
    }
    let quordle = chars_of("Quordle");
    has_substring(&text, &quordle)
}

/// The characters of a text that may be absent; an absent text is empty.
pub open spec fn text_or_empty(text: Option<String>) -> Seq<char> {
    match text {
        Some(t) => t@,
        None => Seq::empty(),
    }
}

impl RemoteVideo {
    /// The video is kept: it has a title, and the title is not on the denylist.
    pub open spec fn is_listed(self) -> bool {
        self.snippet matches Some(snippet) && snippet.title matches Some(title) && !is_denylisted(
            title@,
        )
    }

    /// The video has the parts without which no record can be made of it.
    pub open spec fn is_complete(self) -> bool {
        self.id is Some && self.snippet is Some && self.content_details is Some
    }

    /// The record that the details stand for. Absent texts count as empty, an
    /// absent publication time as the epoch, and the length is what the
    /// duration text gives in seconds.
    pub open spec fn record(self) -> VideoView {
        let snippet = self.snippet->0;
        let description = text_or_empty(snippet.description);
        VideoView {
            id: self.id->0@,
            title: text_or_empty(snippet.title),
            description,
            date: match snippet.published_at {
                Some(millis) => millis,
                None => 0,
            },
            duration: duration_seconds(text_or_empty(self.content_details->0.duration)) as u64,
            links: extract_links(description),
        }
    }

    /// Tests whether the video is kept.
    pub fn listed(&self) -> (b: bool)
        ensures
            b == self.is_listed(),
    {
        match &self.snippet {
            Some(snippet) => match &snippet.title {
                Some(title) => !title_is_denylisted(title.as_str()),
                None => false,
            },
            None => false,
        }
    }

    /// Tests whether a record can be made of the video.
    pub fn complete(&self) -> (b: bool)
        ensures
            b == self.is_complete(),
    {
        self.id.is_some() && self.snippet.is_some() && self.content_details.is_some()
    }
}

impl CtcVideo {
    /// Makes the record of a video out of the details that the catalog gave.
    pub fn from_remote(video: RemoteVideo) -> (record: CtcVideo)
        requires
            video.is_complete(),
        ensures
            record@ == video.record(),
            record.well_formed(),
    {
        let snippet = video.snippet.unwrap();
        let id = VideoId(video.id.unwrap());
        let title = match snippet.title {
            Some(t) => t,
            None => String::new(),
        };
        let description = match snippet.description {
            Some(d) => d,
            None => String::new(),
        };
        let date = VideoPublishDate::new(
            match snippet.published_at {
                Some(millis) => millis,
                None => 0,
            },
        );
        let duration = VideoDuration::new(
            match video.content_details.unwrap().duration {
                Some(text) => parse_duration_seconds(text.as_str()),
                None => parse_duration_seconds(""),
            },
        );
        proof {
            reveal_strlit("");
            assert(""@ =~= Seq::<char>::empty());
        }
        let extracted_links = extract_links_from_description(description.as_str());
        CtcVideo { id, title, description, date, duration, extracted_links }
    }
}

/// `is_listed` as a predicate value.
pub open spec fn listed_filter() -> spec_fn(RemoteVideo) -> bool {
    |video: RemoteVideo| video.is_listed()
}

/// The records of the videos that are kept, in the order of the details.
pub open spec fn records_of(details: Seq<RemoteVideo>) -> Seq<VideoView> {
    details.filter(listed_filter()).map_values(|video: RemoteVideo| video.record())
}

/// Every video that is kept has the parts that a record needs.
pub open spec fn kept_are_complete(details: Seq<RemoteVideo>) -> bool {
    forall|i: int|
        0 <= i < details.len() && (#[trigger] details[i]).is_listed() ==> details[i].is_complete()
}

/// The views of a run of video records.
pub open spec fn video_views(videos: Seq<CtcVideo>) -> Seq<VideoView> {
    Seq::new(videos.len(), |i: int| videos[i]@)
}

/// Every record's links are those that its description yields.
pub open spec fn all_well_formed(videos: Seq<VideoView>) -> bool {
    forall|i: int| 0 <= i < videos.len() ==> (#[trigger] videos[i]).well_formed()
}

/// Tests whether every video that would be kept has the parts that a record
/// needs.
pub fn details_are_usable(details: &Vec<RemoteVideo>) -> (b: bool)
    ensures
        b == kept_are_complete(details@),
{
    let mut i: usize = 0;
    while i < details.len()
        invariant
            i <= details.len(),
            forall|k: int|
                0 <= k < i && (#[trigger] details@[k]).is_listed() ==> details@[k].is_complete(),
        decreases details.len() - i,
    {
        if details[i].listed() && !details[i].complete() {
            return false;
        }
        i += 1;
    }
    true
}

/// Turns the details that the catalog gave into video records: videos without
/// a title and videos whose title is on the denylist are dropped, the others
/// become records, in order.
pub fn videos_from_details(details: Vec<RemoteVideo>) -> (videos: Vec<CtcVideo>)
    requires
        kept_are_complete(details@),
    ensures
        video_views(videos@) == records_of(details@),
        all_well_formed(video_views(videos@)),
{
    let ghost all = details@;
    let mut videos: Vec<CtcVideo> = Vec::new();
    proof {
        lemma_filter_empty(listed_filter());
        assert(all.take(0) =~= Seq::empty());
        assert(video_views(videos@) =~= records_of(all.take(0)));
    }
    for video in it: details
        invariant
            it.seq() == all,
            kept_are_complete(all),
            video_views(videos@) =~= records_of(all.take(it.index() as int)),
            all_well_formed(video_views(videos@)),
    {
        let ghost k = it.index() as int;
        let ghost before = video_views(videos@);
        proof {
            lemma_filter_push(all.take(k), all[k], listed_filter());
            assert(all.take(k + 1) =~= all.take(k).push(all[k]));
        }
        if video.listed() {
            videos.push(CtcVideo::from_remote(video));
            assert(video_views(videos@) =~= before.push(all[k].record()));
        }
    }
    assert(all.take(all.len() as int) =~= all);
    videos
}

/// The batches into which a run of items is cut for requests that take at
/// most `limit` items each: full batches first, the remainder last.
pub open spec fn batches<A>(items: Seq<A>, limit: nat) -> Seq<Seq<A>>
    recommends
        limit > 0,
    decreases items.len(),
{
    if items.len() == 0 || limit == 0 {
        Seq::empty()
    } else if items.len() <= limit {
        seq![items]
    } else {
        seq![items.take(limit as int)] + batches(items.skip(limit as int), limit)
    }
}

/// The batches hold the items in order, and each holds at least one item and
/// at most `limit`.
pub proof fn lemma_batches_cover<A>(items: Seq<A>, limit: nat)
    requires
        limit > 0,
    ensures
        batches(items, limit).flatten() == items,
        forall|i: int|
            0 <= i < batches(items, limit).len() ==> 0 < (#[trigger] batches(items, limit)[i]).len()
                <= limit,
    decreases items.len(),
{
    if items.len() == 0 {
        assert(batches(items, limit).flatten() =~= items);
    } else if items.len() <= limit {
        assert(seq![items].flatten() =~= items) by {
            assert(seq![items].drop_first() =~= Seq::<Seq<A>>::empty());
            assert(Seq::<Seq<A>>::empty().flatten() =~= Seq::<A>::empty());
            assert(seq![items].first() == items);
        }
    } else {
        let head = items.take(limit as int);
        let rest = batches(items.skip(limit as int), limit);
        lemma_batches_cover(items.skip(limit as int), limit);
        let all = seq![head] + rest;
        assert(all.first() == head);
        assert(all.drop_first() =~= rest);
        assert(all.flatten() =~= head + rest.flatten());
        assert(head + items.skip(limit as int) =~= items);
    }
}

/// The character sequences held by a run of batches of identifiers.
pub open spec fn batch_views(groups: Seq<Vec<VideoId>>) -> Seq<Seq<Seq<char>>> {
    Seq::new(groups.len(), |i: int| id_views(groups[i]@))
}

/// Cuts a run of identifiers into batches of at most `REQUEST_LIMIT`.
pub fn split_into_batches(ids: Vec<VideoId>) -> (groups: Vec<Vec<VideoId>>)
    ensures
        batch_views(groups@) == batches(id_views(ids@), REQUEST_LIMIT as nat),
{
    let ghost all = id_views(ids@);
    let ghost limit = REQUEST_LIMIT as nat;
    let mut groups: Vec<Vec<VideoId>> = Vec::new();
    let mut current: Vec<VideoId> = Vec::new();
    proof {
        assert(all.skip(0) =~= all);
        assert(batch_views(groups@) + batches(all, limit) =~= batches(all, limit));
    }
    for id in it: ids
        invariant
            limit == REQUEST_LIMIT,
            all == id_views(it.seq()),
            current.len() < REQUEST_LIMIT,
            current.len() <= it.index(),
            batch_views(groups@) + batches(all.skip(it.index() - current.len()), limit)
                =~= batches(all, limit),
            id_views(current@) =~= all.subrange(it.index() - current.len(), it.index() as int),
    {
        let ghost k = it.index() as int;
        let ghost start = k - current.len();
        current.push(id);
        assert(id_views(current@) =~= all.subrange(start, k + 1));
        if current.len() == REQUEST_LIMIT {
            let ghost tail = all.skip(start);
            let ghost done = batch_views(groups@);
            assert(tail.take(limit as int) =~= id_views(current@));
            assert(tail.skip(limit as int) =~= all.skip(k + 1));
            proof {
                if tail.len() <= limit {
                    assert(all.skip(k + 1).len() == 0);
                    assert(tail =~= id_views(current@));
                    assert(batches(all.skip(k + 1), limit) =~= Seq::empty());
                }
            }
            groups.push(current);
            current = Vec::new();
            assert(batch_views(groups@) =~= done.push(tail.take(limit as int)));
        }
    }
    if current.len() > 0 {
        let ghost done = batch_views(groups@);
        let ghost tail = all.skip(all.len() - current.len());
        assert(tail =~= id_views(current@));
        groups.push(current);
        assert(batch_views(groups@) =~= done.push(tail));
    } else {
        assert(all.skip(all.len() as int) =~= Seq::empty());
    }
    groups
}

} // verus!
