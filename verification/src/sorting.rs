//! Ordering a list of videos by length, shortest first, without disturbing
//! the order of videos of equal length.

use vstd::prelude::*;
use crate::catalog::all_well_formed;
use crate::catalog::video_views;
use crate::model::CtcVideo;
use crate::model::VideoView;
use crate::seqs::lemma_filter_empty;
use crate::seqs::lemma_filter_members;
use crate::seqs::lemma_filter_push;

verus! {

/// No video stands before a shorter one.
pub open spec fn sorted_by_duration(videos: Seq<VideoView>) -> bool {
    forall|i: int, j: int|
        0 <= i <= j < videos.len() ==> (#[trigger] videos[i]).duration <= (
        #[trigger] videos[j]).duration
}

/// `video` put into an ordered list: it goes behind every video that is not
/// longer than it.
pub open spec fn insert_by_duration(videos: Seq<VideoView>, video: VideoView) -> Seq<VideoView>
    decreases videos.len(),
{
    if videos.len() == 0 || videos.last().duration <= video.duration {
        videos.push(video)
    } else {
        insert_by_duration(videos.drop_last(), video).push(videos.last())
    }
}

/// The list ordered by length, shortest first; videos of equal length keep
/// the order in which they stood.
pub open spec fn sort_by_duration(videos: Seq<VideoView>) -> Seq<VideoView>
    decreases videos.len(),
{
    if videos.len() == 0 {
        videos
    } else {
        insert_by_duration(sort_by_duration(videos.drop_last()), videos.last())
    }
}

/// The videos of one length, as a predicate value.
pub open spec fn of_duration(duration: u64) -> spec_fn(VideoView) -> bool {
    |video: VideoView| video.duration == duration
}

/// Putting a video into an ordered list at position `at` is what
/// `insert_by_duration` does, when `at` is the first position behind the
/// videos that are not longer.
pub proof fn lemma_insert_position(videos: Seq<VideoView>, video: VideoView, at: int)
    requires
        0 <= at <= videos.len(),
        forall|k: int| at <= k < videos.len() ==> (#[trigger] videos[k]).duration > video.duration,
        at > 0 ==> videos[at - 1].duration <= video.duration,
    ensures
        insert_by_duration(videos, video) == videos.insert(at, video),
    decreases videos.len(),
{
    if at == videos.len() {
        assert(videos.insert(at, video) =~= videos.push(video));
    } else {
        assert(videos[videos.len() - 1].duration > video.duration);
        lemma_insert_position(videos.drop_last(), video, at);
        assert(videos.drop_last().insert(at, video).push(videos.last()) =~= videos.insert(
            at,
            video,
        ));
    }
}

/// Inserting keeps every video, adds the new one, keeps an ordered list
/// ordered, and leaves the order among videos of each length as it was.
pub proof fn lemma_insert_by_duration(videos: Seq<VideoView>, video: VideoView)
    ensures
        insert_by_duration(videos, video).len() == videos.len() + 1,
        insert_by_duration(videos, video).to_multiset() == videos.to_multiset().insert(video),
        sorted_by_duration(videos) ==> sorted_by_duration(insert_by_duration(videos, video)),
        forall|d: u64|
            sorted_by_duration(videos) ==> #[trigger] insert_by_duration(videos, video).filter(
                of_duration(d),
            ) == videos.push(video).filter(of_duration(d)),
    decreases videos.len(),
{
    broadcast use vstd::seq_lib::group_to_multiset_ensures;

    let result = insert_by_duration(videos, video);
    if videos.len() == 0 || videos.last().duration <= video.duration {
        if sorted_by_duration(videos) {
            assert forall|i: int, j: int| 0 <= i <= j < result.len() implies (
            #[trigger] result[i]).duration <= (#[trigger] result[j]).duration by {
                if j == videos.len() && i < j {
                    assert(videos[i].duration <= videos[videos.len() - 1].duration);
                }
            }
        }
    } else {
        let init = videos.drop_last();
        let last = videos.last();
        lemma_insert_by_duration(init, video);
        let inner = insert_by_duration(init, video);
        assert(init.push(last) =~= videos);
        assert(result.to_multiset() == videos.to_multiset().insert(video)) by {
            assert(inner.push(last).to_multiset() =~= inner.to_multiset().insert(last));
            assert(init.push(last).to_multiset() =~= init.to_multiset().insert(last));
            assert(init.to_multiset().insert(video).insert(last) =~= init.to_multiset().insert(
                last,
            ).insert(video));
        }
        if sorted_by_duration(videos) {
            assert(sorted_by_duration(init)) by {
                assert forall|i: int, j: int| 0 <= i <= j < init.len() implies (
                #[trigger] init[i]).duration <= (#[trigger] init[j]).duration by {
                    assert(videos[i].duration <= videos[j].duration);
                }
            }
            assert forall|k: int| 0 <= k < inner.len() implies (#[trigger] inner[k]).duration
                <= last.duration by {
                assert(inner.to_multiset().count(inner[k]) > 0);
                if inner[k] != video {
                    assert(init.to_multiset().count(inner[k]) > 0);
                    let m = choose|m: int| 0 <= m < init.len() && init[m] == inner[k];
                    assert(videos[m].duration <= videos[videos.len() - 1].duration);
                }
            }
            assert forall|i: int, j: int| 0 <= i <= j < result.len() implies (
            #[trigger] result[i]).duration <= (#[trigger] result[j]).duration by {
                if j < inner.len() {
                    assert(inner[i].duration <= inner[j].duration);
                } else if i < inner.len() {
                    assert(inner[i].duration <= last.duration);
                }
            }
            assert forall|d: u64| #[trigger]
                result.filter(of_duration(d)) == videos.push(video).filter(of_duration(d)) by {
                lemma_filter_push(inner, last, of_duration(d));
                lemma_filter_push(init, video, of_duration(d));
                lemma_filter_push(init, last, of_duration(d));
                lemma_filter_push(videos, video, of_duration(d));
                assert(inner.filter(of_duration(d)) == init.push(video).filter(of_duration(d)));
            }
        }
    }
}

/// The ordered list is ordered, holds the same videos as the list it was made
/// from, each as often, and keeps the order among videos of each length.
pub proof fn lemma_sort_by_duration(videos: Seq<VideoView>)
    ensures
        sorted_by_duration(sort_by_duration(videos)),
        sort_by_duration(videos).len() == videos.len(),
        sort_by_duration(videos).to_multiset() == videos.to_multiset(),
        forall|d: u64| #[trigger]
            sort_by_duration(videos).filter(of_duration(d)) == videos.filter(of_duration(d)),
    decreases videos.len(),
{
    broadcast use vstd::seq_lib::group_to_multiset_ensures;

    if videos.len() == 0 {
    } else {
        let init = videos.drop_last();
        let last = videos.last();
        lemma_sort_by_duration(init);
        lemma_insert_by_duration(sort_by_duration(init), last);
        assert(init.push(last) =~= videos);
        assert(init.push(last).to_multiset() =~= init.to_multiset().insert(last));
        assert forall|d: u64| #[trigger]
            sort_by_duration(videos).filter(of_duration(d)) == videos.filter(of_duration(d)) by {
            lemma_filter_push(sort_by_duration(init), last, of_duration(d));
            lemma_filter_push(init, last, of_duration(d));
        }
    }
}

/// Two ordered lists that agree, for each length, on the videos of that
/// length and on their order, are the same list.
pub proof fn lemma_order_is_determined(a: Seq<VideoView>, b: Seq<VideoView>)
    requires
        sorted_by_duration(a),
        sorted_by_duration(b),
        forall|d: u64| #[trigger] a.filter(of_duration(d)) == b.filter(of_duration(d)),
    ensures
        a == b,
    decreases a.len(),
{
    if a.len() == 0 {
        if b.len() > 0 {
            let d = b.last().duration;
            lemma_filter_push(b.drop_last(), b.last(), of_duration(d));
            assert(b.drop_last().push(b.last()) =~= b);
            lemma_filter_empty(of_duration(d));
            assert(a =~= Seq::empty());
            assert(a.filter(of_duration(d)) == b.filter(of_duration(d)));
        }
        assert(a =~= b);
    } else {
        let x = a.last();
        let d = x.duration;
        let a_init = a.drop_last();
        assert(a_init.push(x) =~= a);
        lemma_filter_push(a_init, x, of_duration(d));
        let shared = b.filter(of_duration(d));
        assert(a.filter(of_duration(d)) == shared);
        assert(shared.last() == x);
        lemma_filter_members(b, of_duration(d));
        assert(b.contains(shared[shared.len() - 1]));
        let at = choose|at: int| 0 <= at < b.len() && b[at] == x;
        let y = b.last();
        let e = y.duration;
        let b_init = b.drop_last();
        assert(b_init.push(y) =~= b);
        lemma_filter_push(b_init, y, of_duration(e));
        let other = a.filter(of_duration(e));
        assert(other == b.filter(of_duration(e)));
        assert(other.last() == y);
        lemma_filter_members(a, of_duration(e));
        assert(a.contains(other[other.len() - 1]));
        let back = choose|back: int| 0 <= back < a.len() && a[back] == y;
        assert(a[back].duration <= a[a.len() - 1].duration);
        assert(b[at].duration <= b[b.len() - 1].duration);
        assert(d == e);
        assert(x == y);
        assert(sorted_by_duration(a_init)) by {
            assert forall|i: int, j: int| 0 <= i <= j < a_init.len() implies (
            #[trigger] a_init[i]).duration <= (#[trigger] a_init[j]).duration by {
                assert(a[i].duration <= a[j].duration);
            }
        }
        assert(sorted_by_duration(b_init)) by {
            assert forall|i: int, j: int| 0 <= i <= j < b_init.len() implies (
            #[trigger] b_init[i]).duration <= (#[trigger] b_init[j]).duration by {
                assert(b[i].duration <= b[j].duration);
            }
        }
        assert forall|c: u64| #[trigger]
            a_init.filter(of_duration(c)) == b_init.filter(of_duration(c)) by {
            lemma_filter_push(a_init, x, of_duration(c));
            lemma_filter_push(b_init, y, of_duration(c));
            assert(a.filter(of_duration(c)) == b.filter(of_duration(c)));
            if c == d {
                assert(a_init.filter(of_duration(c)) =~= a.filter(of_duration(c)).drop_last());
                assert(b_init.filter(of_duration(c)) =~= b.filter(of_duration(c)).drop_last());
            }
        }
        lemma_order_is_determined(a_init, b_init);
    }
}

/// Ordering keeps every record's links in step with its description.
pub proof fn lemma_sort_keeps_well_formed(videos: Seq<VideoView>)
    requires
        all_well_formed(videos),
    ensures
        all_well_formed(sort_by_duration(videos)),
{
    broadcast use vstd::seq_lib::group_to_multiset_ensures;

    lemma_sort_by_duration(videos);
    let sorted = sort_by_duration(videos);
    assert forall|i: int| 0 <= i < sorted.len() implies (#[trigger] sorted[i]).well_formed() by {
        assert(sorted.to_multiset().count(sorted[i]) > 0);
        assert(videos.to_multiset().count(sorted[i]) > 0);
        let k = choose|k: int| 0 <= k < videos.len() && videos[k] == sorted[i];
        assert(videos[k].well_formed());
    }
}

/// Puts `video` into the ordered list `videos`, behind every video that is
/// not longer than it.
pub fn insert_video(videos: &mut Vec<CtcVideo>, video: CtcVideo)
    requires
        sorted_by_duration(video_views(old(videos)@)),
    ensures
        video_views(final(videos)@) == insert_by_duration(video_views(old(videos)@), video@),
{
    let ghost before = video_views(videos@);
    let mut at: usize = videos.len();
    while at > 0 && videos[at - 1].duration.0 > video.duration.0
        invariant
            at <= videos.len(),
            before == video_views(videos@),
            forall|k: int| at <= k < before.len() ==> (#[trigger] before[k]).duration > video@.duration,
        decreases at,
    {
        at -= 1;
    }
    proof {
        lemma_insert_position(before, video@, at as int);
    }
    videos.insert(at, video);
    assert(video_views(videos@) =~= before.insert(at as int, video@));
}

/// Orders `videos` by length, shortest first; videos of equal length keep
/// their order.
pub fn sort_videos(videos: Vec<CtcVideo>) -> (sorted: Vec<CtcVideo>)
    ensures
        video_views(sorted@) == sort_by_duration(video_views(videos@)),
        sorted_by_duration(video_views(sorted@)),
        sorted.len() == videos.len(),
{
    let ghost all = video_views(videos@);
    let mut sorted: Vec<CtcVideo> = Vec::new();
    proof {
        assert(all.take(0) =~= Seq::empty());
        assert(video_views(sorted@) =~= sort_by_duration(all.take(0)));
    }
    for video in it: videos
        invariant
            all == video_views(it.seq()),
            video_views(sorted@) == sort_by_duration(all.take(it.index() as int)),
    {
        let ghost k = it.index() as int;
        proof {
            lemma_sort_by_duration(all.take(k));
            assert(all.take(k + 1).drop_last() =~= all.take(k));
            assert(all.take(k + 1).last() == video@);
        }
        insert_video(&mut sorted, video);
    }
    proof {
        assert(all.take(all.len() as int) =~= all);
        lemma_sort_by_duration(all);
    }
    sorted
}

} // verus!
