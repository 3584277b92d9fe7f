//! The data model: video identifiers, video records, store rows, and the
//! puzzle links that are read out of a video's description.

use vstd::prelude::*;
use vstd::std_specs::cmp::PartialEqSpecImpl;
use vstd::string::StringExecFns;
use crate::seqs::lemma_filter_empty;
use crate::seqs::lemma_filter_members;
use crate::seqs::lemma_filter_push;
use crate::text::begins_with;
use crate::text::chars_of;
use crate::text::contains;
use crate::text::has_substring;
use crate::text::split_words;
use crate::text::starts_with;
use crate::text::string_of;
use crate::text::word_views;
use crate::text::words;

verus! {

/// A word is a puzzle link when it begins with `http` and names one of the
/// three puzzle hosts.
pub open spec fn is_puzzle_link(word: Seq<char>) -> bool {
    &&& starts_with(word, "http"@)
    &&& (contains(word, "sudokupad.app"@) || contains(word, "crackingthecryptic.com"@)
        || contains(word, "cracking-the-cryptic.web.app"@))
}

/// `is_puzzle_link` as a predicate value.
pub open spec fn puzzle_link_filter() -> spec_fn(Seq<char>) -> bool {
    |word: Seq<char>| is_puzzle_link(word)
}

/// The puzzle links of a description: those of its words that are puzzle
/// links, in the order in which they stand.
pub open spec fn extract_links(description: Seq<char>) -> Seq<Seq<char>> {
    words(description).filter(puzzle_link_filter())
}

/// Every extracted link is a word of the description, begins with `http` and
/// names one of the three puzzle hosts.
pub proof fn lemma_extracted_links_are_puzzle_links(description: Seq<char>)
    ensures
        forall|i: int|
            0 <= i < extract_links(description).len() ==> {
                let link = #[trigger] extract_links(description)[i];
                &&& words(description).contains(link)
                &&& starts_with(link, "http"@)
                &&& (contains(link, "sudokupad.app"@) || contains(link, "crackingthecryptic.com"@)
                    || contains(link, "cracking-the-cryptic.web.app"@))
            },
{
    lemma_filter_members(words(description), puzzle_link_filter());
}

/// Tests whether `word` is a puzzle link.
pub fn word_is_puzzle_link(word: &Vec<char>) -> (b: bool)
    ensures
        b == is_puzzle_link(word@),
{
    let scheme = chars_of("http");
    if !begins_with(word, &scheme) {
        return false;
    }
    let pad = chars_of("sudokupad.app");
    if has_substring(word, &pad) {
        return true;
    }
    let site = chars_of("crackingthecryptic.com");
    if has_substring(word, &site) {
        return true;
    }
    let web_app = chars_of("cracking-the-cryptic.web.app");
    has_substring(word, &web_app)
}

/// Reads the puzzle links out of a video description.
pub fn extract_links_from_description(description: &str) -> (links: Vec<String>)
    ensures
        links.deep_view() == extract_links(description@),
{
    let text = chars_of(description);
    let found = split_words(&text);
    let mut links: Vec<String> = Vec::new();
    let mut i: usize = 0;
    proof {
        lemma_filter_empty(puzzle_link_filter());
        assert(word_views(found@).take(0) =~= Seq::empty());
    }
    while i < found.len()
        invariant
            i <= found.len(),
            links.deep_view() =~= word_views(found@).take(i as int).filter(puzzle_link_filter()),
        decreases found.len() - i,
    {
        let ghost before = links.deep_view();
        proof {
            lemma_filter_push(
                word_views(found@).take(i as int),
                found@[i as int]@,
                puzzle_link_filter(),
            );
            assert(word_views(found@).take(i + 1) =~= word_views(found@).take(i as int).push(
                found@[i as int]@,
            ));
        }
        if word_is_puzzle_link(&found[i]) {
            links.push(string_of(&found[i]));
            assert(links.deep_view() =~= before.push(found@[i as int]@));
        }
        i += 1;
    }
    assert(word_views(found@).take(i as int) =~= word_views(found@));
    links
}

/// The address at which a video with the given identifier is watched.
pub open spec fn youtube_url(id: Seq<char>) -> Seq<char> {
    "https://www.youtube.com/watch?v="@ + id
}

/// Builds the watch address of the video with identifier `id`.
pub fn youtube_url_from_id(id: &str) -> (url: String)
    ensures
        url@ == youtube_url(id@),
{
    String::from_str("https://www.youtube.com/watch?v=").concat(id)
}

/// The identifier of a video: the key under which it is stored and told apart
/// from other videos.
#[derive(Debug, Hash)]
pub struct VideoId(pub String);

impl View for VideoId {
    type V = Seq<char>;

    open spec fn view(&self) -> Seq<char> {
        self.0@
    }
}

impl VideoId {
    pub fn new(id: &str) -> (r: Self)
        ensures
            r@ == id@,
    {
        Self(String::from_str(id))
    }
}

impl std::str::FromStr for VideoId {
    type Err = std::string::ParseError;

    fn from_str(s: &str) -> (r: Result<Self, Self::Err>)
        ensures
            r matches Ok(id) && id@ == s@,
    {
        Ok(Self::new(s))
    }
}

impl Clone for VideoId {
    fn clone(&self) -> (r: Self)
        ensures
            r == *self,
    {
        Self(self.0.clone())
    }
}

impl PartialEq for VideoId {
    fn eq(&self, other: &Self) -> (r: bool) {
        self.0 == other.0
    }
}

impl PartialEqSpecImpl for VideoId {
    open spec fn obeys_eq_spec() -> bool {
        true
    }

    open spec fn eq_spec(&self, other: &Self) -> bool {
        self@ == other@
    }
}

impl Eq for VideoId {

}

/// The moment a video was published, in milliseconds since the Unix epoch.
#[derive(Debug, Clone, Copy, Hash, PartialEq, Eq, Structural)]
pub struct VideoPublishDate(pub i64);

impl VideoPublishDate {
    pub fn new(date: i64) -> (r: Self)
        ensures
            r.0 == date,
    {
        Self(date)
    }
}

/// The length of a video in seconds.
#[derive(Debug, Clone, Copy, Hash, PartialEq, Eq, Structural)]
pub struct VideoDuration(pub u64);

impl VideoDuration {
    pub fn new(duration: u64) -> (r: Self)
        ensures
            r.0 == duration,
    {
        Self(duration)
    }
}

/// What a video record holds, as mathematical values.
pub struct VideoView {
    pub id: Seq<char>,
    pub title: Seq<char>,
    pub description: Seq<char>,
    pub date: i64,
    pub duration: u64,
    pub links: Seq<Seq<char>>,
}

/// A video of the channel.
#[derive(Debug)]
pub struct CtcVideo {
    /// Identifier of the video.
    pub id: VideoId,
    /// Title of the video.
    pub title: String,
    /// Description of the video.
    pub description: String,
    /// When the video was published.
    pub date: VideoPublishDate,
    /// Length of the video.
    pub duration: VideoDuration,
    /// The puzzle links found in the description.
    pub extracted_links: Vec<String>,
}

impl View for CtcVideo {
    type V = VideoView;

    open spec fn view(&self) -> VideoView {
        VideoView {
            id: self.id@,
            title: self.title@,
            description: self.description@,
            date: self.date.0,
            duration: self.duration.0,
            links: self.extracted_links.deep_view(),
        }
    }
}

impl VideoView {
    /// The links are those that the description yields.
    pub open spec fn well_formed(self) -> bool {
        self.links == extract_links(self.description)
    }
}

impl CtcVideo {
    /// The links are those that the description yields.
    pub open spec fn well_formed(&self) -> bool {
        self@.well_formed()
    }

    /// Returns the address at which the video is watched.
    pub fn get_video_url(&self) -> (url: String)
        ensures
            url@ == youtube_url(self.id@),
    {
        youtube_url_from_id(self.id.0.as_str())
    }
}

impl Clone for CtcVideo {
    fn clone(&self) -> (r: Self)
        ensures
            r@ == self@,
    {
        let mut links: Vec<String> = Vec::new();
        let mut i: usize = 0;
        while i < self.extracted_links.len()
            invariant
                i <= self.extracted_links.len(),
                links.deep_view() =~= self.extracted_links.deep_view().take(i as int),
            decreases self.extracted_links.len() - i,
        {
            let ghost before = links.deep_view();
            let link = self.extracted_links[i].clone();
            links.push(link);
            assert(links.deep_view() =~= before.push(self.extracted_links@[i as int]@));
            i += 1;
        }
        assert(links.deep_view() =~= self.extracted_links.deep_view());
        CtcVideo {
            id: self.id.clone(),
            title: self.title.clone(),
            description: self.description.clone(),
            date: self.date,
            duration: self.duration,
            extracted_links: links,
        }
    }
}

/// What a stored video row holds, as mathematical values.
pub struct VideoRowView {
    pub id: Seq<char>,
    pub title: Seq<char>,
    pub description: Seq<char>,
    pub date: i64,
    pub duration: u64,
}

/// A row of the table of video records.
pub struct CtcVideoRow {
    pub id: VideoId,
    pub title: String,
    pub description: String,
    pub date: i64,
    pub duration: u64,
}

impl View for CtcVideoRow {
    type V = VideoRowView;

    open spec fn view(&self) -> VideoRowView {
        VideoRowView {
            id: self.id@,
            title: self.title@,
            description: self.description@,
            date: self.date,
            duration: self.duration,
        }
    }
}

/// The video that a stored row stands for: the row's columns, with the links
/// read out of its description.
pub open spec fn video_of_row(row: VideoRowView) -> VideoView {
    VideoView {
        id: row.id,
        title: row.title,
        description: row.description,
        date: row.date,
        duration: row.duration,
        links: extract_links(row.description),
    }
}

impl CtcVideo {
    /// Builds the video that a stored row stands for.
    pub fn from_row(row: CtcVideoRow) -> (video: CtcVideo)
        ensures
            video@ == video_of_row(row@),
            video.well_formed(),
    {
        let extracted_links = extract_links_from_description(row.description.as_str());
        CtcVideo {
            id: row.id,
            title: row.title,
            description: row.description,
            date: VideoPublishDate::new(row.date),
            duration: VideoDuration::new(row.duration),
            extracted_links,
        }
    }
}

/// A row of the table of completion flags.
pub struct CtcVideoCompletionRow {
    pub id: VideoId,
    pub completed: bool,
}

} // verus!
