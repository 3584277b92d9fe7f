//! The consumer's side of the synchronisation: the list of videos and the
//! completion flags that a display shows, the order in which the two are
//! loaded, and which videos the display's filters let through.
//!
//! The flags are loaded first, because a pass starts from the identifiers
//! that have a flag. Only when they have arrived is the catalog loaded.

use vstd::prelude::*;
use crate::catalog::id_views;
use crate::catalog::video_views;
use crate::flags::CompletionFlags;
use crate::flags::FlagError;
use crate::model::CtcVideo;
use crate::model::VideoId;
use crate::model::VideoView;
use crate::text::chars_of;
use crate::text::contains;
use crate::text::has_substring;
use crate::text::text_view;

verus! {

/// What `str::to_lowercase` makes of a text.
pub uninterp spec fn lowercase(text: Seq<char>) -> Seq<char>;

/// `str::to_lowercase`: the lower-case form of a text, which depends on the
/// text alone.
#[verifier::external_body]
fn to_lowercase(text: &str) -> (lower: String)
    ensures
        lower@ == lowercase(text@),
{
    text.to_lowercase()
}

/// How far the loading has come.
#[derive(Debug, Clone, Copy, PartialEq, Eq, Structural)]
pub enum GridPhase {
    /// The completion flags have not been asked for.
    NeedFlags,
    /// The completion flags have been asked for and have not arrived.
    LoadingFlags,
    /// The flags are there; the catalog has not been asked for.
    NeedCatalog,
    /// A synchronisation pass is under way.
    LoadingCatalog,
    /// Flags and catalog are there.
    Ready,
}

/// What the display is to do on a tick.
pub enum GridStep {
    /// There is no key for the catalog: ask the user for one.
    NeedApiKey,
    /// Start loading the completion flags from the store.
    LoadFlags,
    /// Start a synchronisation pass from these known identifiers.
    LoadCatalog { known_ids: Vec<VideoId> },
    /// Something is being loaded: wait.
    Wait,
    /// Show the list.
    Show,
}

/// The state of the grid, as mathematical values.
pub struct GridView {
    pub videos: Seq<VideoView>,
    pub flags: Map<Seq<char>, bool>,
    pub show_completed_videos: bool,
    pub show_without_links: bool,
    pub filter_text: Seq<char>,
    pub phase: GridPhase,
    pub api_key: Option<Seq<char>>,
    pub api_error: Option<Seq<char>>,
}

/// The list of videos with their completion flags, and the settings of the
/// display's filters.
pub struct VideoGrid {
    videos: Vec<CtcVideo>,
    flags: CompletionFlags,
    pub show_completed_videos: bool,
    pub show_without_links: bool,
    pub filter_text: String,
    phase: GridPhase,
    api_key: Option<String>,
    api_error: Option<String>,
}

impl View for VideoGrid {
    type V = GridView;

    closed spec fn view(&self) -> GridView {
        GridView {
            videos: video_views(self.videos@),
            flags: self.flags@,
            show_completed_videos: self.show_completed_videos,
            show_without_links: self.show_without_links,
            filter_text: self.filter_text@,
            phase: self.phase,
            api_key: text_view(self.api_key),
            api_error: text_view(self.api_error),
        }
    }
}

/// The flags after a list of videos has arrived: every video of the list
/// that had no flag has the flag "not completed".
pub open spec fn flags_with(flags: Map<Seq<char>, bool>, videos: Seq<VideoView>) -> Map<
    Seq<char>,
    bool,
>
    decreases videos.len(),
{
    if videos.len() == 0 {
        flags
    } else {
        let before = flags_with(flags, videos.drop_last());
        if before.dom().contains(videos.last().id) {
            before
        } else {
            before.insert(videos.last().id, false)
        }
    }
}

impl GridView {
    /// The video is marked as completed.
    pub open spec fn is_completed(self, video: VideoView) -> bool {
        self.flags.dom().contains(video.id) && self.flags[video.id]
    }

    /// The filters let the video through: it is not completed, or completed
    /// videos are shown; it has a puzzle link, or videos without one are
    /// shown; and its title holds the filter text, letter case apart.
    pub open spec fn shows(self, video: VideoView) -> bool {
        &&& self.show_completed_videos || !self.is_completed(video)
        &&& self.show_without_links || video.links.len() > 0
        &&& self.filter_text.len() == 0 || contains(
            lowercase(video.title),
            lowercase(self.filter_text),
        )
    }

    /// The state after a tick.
    pub open spec fn ticked(self) -> GridView {
        if self.api_key is None {
            self
        } else {
            GridView {
                phase: match self.phase {
                    GridPhase::NeedFlags => GridPhase::LoadingFlags,
                    GridPhase::NeedCatalog => GridPhase::LoadingCatalog,
                    other => other,
                },
                ..self
            }
        }
    }

    /// The state after the completion flags have arrived. Flags that were
    /// not asked for are passed over.
    pub open spec fn with_flags(self, flags: Map<Seq<char>, bool>) -> GridView {
        if self.phase == GridPhase::LoadingFlags {
            GridView { flags, phase: GridPhase::NeedCatalog, ..self }
        } else {
            self
        }
    }

    /// The state after a pass has delivered its list. A list that was not
    /// asked for is passed over.
    pub open spec fn with_catalog(
        self,
        videos: Seq<VideoView>,
        api_error: Option<Seq<char>>,
    ) -> GridView {
        if self.phase == GridPhase::LoadingCatalog {
            GridView {
                videos,
                flags: flags_with(self.flags, videos),
                phase: GridPhase::Ready,
                api_error: if api_error is Some {
                    api_error
                } else {
                    self.api_error
                },
                ..self
            }
        } else {
            self
        }
    }

    /// Both the flags and the catalog have been loaded.
    pub open spec fn ready(self) -> bool {
        self.phase == GridPhase::Ready
    }
}

impl VideoGrid {
    /// A grid with nothing loaded.
    pub fn new(api_key: Option<String>) -> (grid: Self)
        ensures
            grid@ == (GridView {
                videos: Seq::empty(),
                flags: Map::empty(),
                show_completed_videos: false,
                show_without_links: false,
                filter_text: Seq::empty(),
                phase: GridPhase::NeedFlags,
                api_key: text_view(api_key),
                api_error: None,
            }),
    {
        let grid = VideoGrid {
            videos: Vec::new(),
            flags: CompletionFlags::new(),
            show_completed_videos: false,
            show_without_links: false,
            filter_text: String::new(),
            phase: GridPhase::NeedFlags,
            api_key,
            api_error: None,
        };
        assert(grid@.videos =~= Seq::empty());
        grid
    }

    /// How far the loading has come.
    pub fn phase(&self) -> (phase: GridPhase)
        ensures
            phase == self@.phase,
    {
        self.phase
    }

    /// Whether both the flags and the catalog have been loaded.
    pub fn ready(&self) -> (b: bool)
        ensures
            b == self@.ready(),
    {
        match self.phase {
            GridPhase::Ready => true,
            _ => false,
        }
    }

    /// Whether a key for the catalog is set.
    pub fn has_api_key(&self) -> (b: bool)
        ensures
            b == self@.api_key is Some,
    {
        self.api_key.is_some()
    }

    /// The key for the catalog.
    pub fn api_key(&self) -> (key: &Option<String>)
        ensures
            text_view(*key) == self@.api_key,
    {
        &self.api_key
    }

    /// Sets the key for the catalog.
    pub fn set_api_key(&mut self, api_key: Option<String>)
        ensures
            final(self)@ == (GridView { api_key: text_view(api_key), ..old(self)@ }),
    {
        self.api_key = api_key;
    }

    /// The error that the catalog answered with, if it did.
    pub fn api_error(&self) -> (error: &Option<String>)
        ensures
            text_view(*error) == self@.api_error,
    {
        &self.api_error
    }

    /// Sets or clears the error to show.
    pub fn set_api_error(&mut self, api_error: Option<String>)
        ensures
            final(self)@ == (GridView { api_error: text_view(api_error), ..old(self)@ }),
    {
        self.api_error = api_error;
    }

    /// The videos, in the order in which they were delivered.
    pub fn videos(&self) -> (videos: &Vec<CtcVideo>)
        ensures
            video_views(videos@) == self@.videos,
    {
        &self.videos
    }

    /// The completion flags.
    pub fn flags(&self) -> (flags: &CompletionFlags)
        ensures
            flags@ == self@.flags,
    {
        &self.flags
    }

    /// Decides what the display does on a tick. Without a key nothing is
    /// loaded. Otherwise the flags are loaded first, and the catalog once
    /// the flags have arrived; nothing is asked for twice.
    pub fn tick(&mut self) -> (step: GridStep)
        ensures
            final(self)@ == old(self)@.ticked(),
            old(self)@.api_key is None ==> step is NeedApiKey,
            old(self)@.api_key is Some ==> match old(self)@.phase {
                GridPhase::NeedFlags => step is LoadFlags,
                GridPhase::NeedCatalog => step matches GridStep::LoadCatalog { known_ids }
                    && id_views(known_ids@).to_set() == old(self)@.flags.dom(),
                GridPhase::LoadingFlags | GridPhase::LoadingCatalog => step is Wait,
                GridPhase::Ready => step is Show,
            },
    {
        if self.api_key.is_none() {
            return GridStep::NeedApiKey;
        }
        match self.phase {
            GridPhase::NeedFlags => {
                self.phase = GridPhase::LoadingFlags;
                GridStep::LoadFlags
            },
            GridPhase::NeedCatalog => {
                self.phase = GridPhase::LoadingCatalog;
                GridStep::LoadCatalog { known_ids: self.flags.known_ids() }
            },
            GridPhase::LoadingFlags => GridStep::Wait,
            GridPhase::LoadingCatalog => GridStep::Wait,
            GridPhase::Ready => GridStep::Show,
        }
    }

    /// Takes the completion flags that were loaded from the store.
    pub fn on_flags(&mut self, flags: CompletionFlags)
        ensures
            final(self)@ == old(self)@.with_flags(flags@),
    {
        match self.phase {
            GridPhase::LoadingFlags => {
                self.flags = flags;
                self.phase = GridPhase::NeedCatalog;
            },
            _ => {},
        }
    }

    /// Takes the list that a pass delivered, and with it the error that the
    /// catalog answered with, if it did. Every video of the list that has
    /// no flag yet is given the flag "not completed".
    pub fn on_catalog(&mut self, videos: Vec<CtcVideo>, api_error: Option<String>)
        ensures
            final(self)@ == old(self)@.with_catalog(video_views(videos@), text_view(api_error)),
    {
        match self.phase {
            GridPhase::LoadingCatalog => {
                let ghost list = video_views(videos@);
                let ghost before = self.flags@;
                let mut i: usize = 0;
                proof {
                    assert(list.take(0) =~= Seq::empty());
                }
                while i < videos.len()
                    invariant
                        i <= videos.len(),
                        list == video_views(videos@),
                        self.flags@ == flags_with(before, list.take(i as int)),
                        self.videos == old(self).videos,
                        self.show_completed_videos == old(self).show_completed_videos,
                        self.show_without_links == old(self).show_without_links,
                        self.filter_text == old(self).filter_text,
                        self.phase == old(self).phase,
                        self.api_key == old(self).api_key,
                        self.api_error == old(self).api_error,
                    decreases videos.len() - i,
                {
                    proof {
                        assert(list.take(i + 1).drop_last() =~= list.take(i as int));
                        assert(list.take(i + 1).last() == list[i as int]);
                    }
                    self.flags.ensure(&videos[i].id);
                    i += 1;
                }
                assert(list.take(i as int) =~= list);
                self.videos = videos;
                self.phase = GridPhase::Ready;
                if api_error.is_some() {
                    self.api_error = api_error;
                }
            },
            _ => {},
        }
    }

    /// Asks for the catalog to be loaded again on the next tick. While
    /// something is being loaded, or before the flags are there, nothing
    /// changes.
    pub fn refresh_videos(&mut self)
        ensures
            final(self)@ == if old(self)@.phase == GridPhase::Ready {
                GridView { phase: GridPhase::NeedCatalog, ..old(self)@ }
            } else {
                old(self)@
            },
    {
        match self.phase {
            GridPhase::Ready => {
                self.phase = GridPhase::NeedCatalog;
            },
            _ => {},
        }
    }

    /// Changes the completion flag of a video. A video without a flag gets
    /// none: the change is turned down and nothing changes.
    pub fn set_completion_status(&mut self, video_id: &VideoId, completed: bool) -> (done: Result<
        (),
        FlagError,
    >)
        ensures
            old(self)@.flags.dom().contains(video_id@) ==> done is Ok && final(self)@ == (GridView {
                flags: old(self)@.flags.insert(video_id@, completed),
                ..old(self)@
            }),
            !old(self)@.flags.dom().contains(video_id@) ==> done == Err::<(), FlagError>(
                FlagError::UnknownVideo,
            ) && final(self)@ == old(self)@,
    {
        self.flags.set(video_id, completed)
    }

    /// Whether the video is marked as completed.
    pub fn is_completed(&self, video: &CtcVideo) -> (b: bool)
        ensures
            b == self@.is_completed(video@),
    {
        match self.flags.get(&video.id) {
            Some(completed) => completed,
            None => false,
        }
    }

    /// Whether the filters let the video through.
    pub fn shows(&self, video: &CtcVideo) -> (b: bool)
        ensures
            b == self@.shows(video@),
    {
        if !self.show_completed_videos && self.is_completed(video) {
            return false;
        }
        if !self.show_without_links && video.extracted_links.len() == 0 {
            assert(video@.links.len() == 0);
            return false;
        }
        assert(self.show_without_links || video@.links.len() > 0);
        let wanted = chars_of(self.filter_text.as_str());
        if wanted.len() == 0 {
            return true;
        }
        let title = chars_of(to_lowercase(video.title.as_str()).as_str());
        let needle = chars_of(to_lowercase(self.filter_text.as_str()).as_str());
        has_substring(&title, &needle)
    }

    /// The positions in the list of the videos that the filters let
    /// through, in order.
    pub fn visible_rows(&self) -> (rows: Vec<usize>)
        ensures
            forall|k: int| 0 <= k < rows@.len() ==> (#[trigger] rows@[k]) < self@.videos.len(),
            forall|k: int, l: int| 0 <= k < l < rows@.len() ==> rows@[k] < rows@[l],
            forall|i: int|
                0 <= i < self@.videos.len() ==> (self@.shows(#[trigger] self@.videos[i])
                    <==> exists|k: int| 0 <= k < rows@.len() && rows@[k] == i),
    {
        let mut rows: Vec<usize> = Vec::new();
        let mut i: usize = 0;
        while i < self.videos.len()
            invariant
                i <= self.videos.len(),
                forall|k: int| 0 <= k < rows@.len() ==> (#[trigger] rows@[k]) < i,
                forall|k: int, l: int| 0 <= k < l < rows@.len() ==> rows@[k] < rows@[l],
                forall|j: int|
                    0 <= j < i ==> (self@.shows(#[trigger] self@.videos[j]) <==> exists|k: int|
                        0 <= k < rows@.len() && rows@[k] == j),
            decreases self.videos.len() - i,
        {
            let ghost before = rows@;
            let shown = self.shows(&self.videos[i]);
            assert(self.videos@[i as int]@ == self@.videos[i as int]);
            if shown {
                rows.push(i);
                assert(rows@[before.len() as int] == i);
            }
            proof {
                assert forall|j: int| 0 <= j < i + 1 implies (self@.shows(
                    #[trigger] self@.videos[j],
                ) <==> exists|k: int| 0 <= k < rows@.len() && rows@[k] == j) by {
                    if j < i {
                        if self@.shows(self@.videos[j]) {
                            let k = choose|k: int| 0 <= k < before.len() && before[k] == j;
                            assert(rows@[k] == j);
                        }
                        if exists|k: int| 0 <= k < rows@.len() && rows@[k] == j {
                            let k = choose|k: int| 0 <= k < rows@.len() && rows@[k] == j;
                            assert(before[k] == j);
                        }
                    } else if !shown {
                        if exists|k: int| 0 <= k < rows@.len() && rows@[k] == j {
                            let k = choose|k: int| 0 <= k < rows@.len() && rows@[k] == j;
                            assert(rows@[k] < i);
                        }
                    }
                }
            }
            i += 1;
        }
        rows
    }
}

/// While the flags have not arrived no pass is started: a tick asks for the
/// catalog only in the phase that follows the arrival of the flags.
pub proof fn law_flags_before_catalog(grid: GridView)
    ensures
        grid.ticked().phase == GridPhase::LoadingCatalog ==> grid.phase == GridPhase::NeedCatalog
            || grid.phase == GridPhase::LoadingCatalog,
        grid.phase == GridPhase::NeedFlags || grid.phase == GridPhase::LoadingFlags
            ==> grid.ticked().phase == GridPhase::LoadingFlags || grid.ticked().phase
            == GridPhase::NeedFlags,
        forall|videos: Seq<VideoView>, error: Option<Seq<char>>|
            grid.phase != GridPhase::LoadingCatalog ==> #[trigger] grid.with_catalog(videos, error)
                == grid,
        forall|flags: Map<Seq<char>, bool>|
            grid.phase != GridPhase::LoadingFlags ==> #[trigger] grid.with_flags(flags) == grid,
{
}

} // verus!
