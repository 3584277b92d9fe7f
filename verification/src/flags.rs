//! The completion flags: for each known video, whether its puzzle has been
//! completed. A video without a flag is not yet known.

use vstd::prelude::*;
use crate::catalog::id_views;
use crate::model::CtcVideoCompletionRow;
use crate::model::VideoId;

verus! {

/// The flags that a run of rows stands for; of two rows for one video the
/// later one counts.
pub open spec fn flags_of_rows(rows: Seq<CtcVideoCompletionRow>) -> Map<Seq<char>, bool>
    decreases rows.len(),
{
    if rows.len() == 0 {
        Map::empty()
    } else {
        flags_of_rows(rows.drop_last()).insert(rows.last().id@, rows.last().completed)
    }
}

/// Why a change of a completion flag was turned down.
#[derive(Debug, Clone, Copy, PartialEq, Eq, Structural)]
pub enum FlagError {
    /// The video has no flag. Flags come into being when a video is taken
    /// in, never by a change.
    UnknownVideo,
}

/// The completion flags, one for each known video.
pub struct CompletionFlags {
    rows: Vec<CtcVideoCompletionRow>,
}

impl View for CompletionFlags {
    type V = Map<Seq<char>, bool>;

    closed spec fn view(&self) -> Map<Seq<char>, bool> {
        flags_of_rows(self.rows@)
    }
}

/// The flags of a run of rows are those of the videos that the rows name.
proof fn lemma_flags_domain(rows: Seq<CtcVideoCompletionRow>)
    ensures
        forall|id: Seq<char>|
            flags_of_rows(rows).dom().contains(id) <==> exists|i: int|
                0 <= i < rows.len() && (#[trigger] rows[i]).id@ == id,
        flags_of_rows(rows).dom().finite(),
    decreases rows.len(),
{
    if rows.len() > 0 {
        let init = rows.drop_last();
        lemma_flags_domain(init);
        assert forall|id: Seq<char>| flags_of_rows(rows).dom().contains(id) <==> exists|i: int|
            0 <= i < rows.len() && (#[trigger] rows[i]).id@ == id by {
            if flags_of_rows(rows).dom().contains(id) {
                if id == rows.last().id@ {
                    assert(rows[rows.len() - 1].id@ == id);
                } else {
                    let i = choose|i: int| 0 <= i < init.len() && (#[trigger] init[i]).id@ == id;
                    assert(rows[i].id@ == id);
                }
            }
            if exists|i: int| 0 <= i < rows.len() && (#[trigger] rows[i]).id@ == id {
                let i = choose|i: int| 0 <= i < rows.len() && (#[trigger] rows[i]).id@ == id;
                if i < init.len() {
                    assert(init[i].id@ == id);
                }
            }
        }
    }
}

/// With no video named twice, each row's flag is the flag of its video.
proof fn lemma_flags_lookup(rows: Seq<CtcVideoCompletionRow>, at: int)
    requires
        0 <= at < rows.len(),
        forall|i: int, j: int|
            0 <= i < j < rows.len() ==> (#[trigger] rows[i]).id@ != (#[trigger] rows[j]).id@,
    ensures
        flags_of_rows(rows).dom().contains(rows[at].id@),
        flags_of_rows(rows)[rows[at].id@] == rows[at].completed,
    decreases rows.len(),
{
    if at < rows.len() - 1 {
        let init = rows.drop_last();
        assert(init[at] == rows[at]);
        assert(rows[at].id@ != rows[rows.len() - 1].id@);
        assert forall|i: int, j: int| 0 <= i < j < init.len() implies (#[trigger] init[i]).id@ != (
        #[trigger] init[j]).id@ by {
            assert(rows[i].id@ != rows[j].id@);
        }
        lemma_flags_lookup(init, at);
    }
}

/// Changing the flag in one row changes the flag of that row's video and no
/// other, when no video is named twice.
proof fn lemma_flags_update(
    rows: Seq<CtcVideoCompletionRow>,
    changed: Seq<CtcVideoCompletionRow>,
    at: int,
)
    requires
        0 <= at < rows.len(),
        changed.len() == rows.len(),
        forall|i: int| 0 <= i < rows.len() ==> (#[trigger] changed[i]).id@ == rows[i].id@,
        forall|i: int|
            0 <= i < rows.len() && i != at ==> (#[trigger] changed[i]).completed
                == rows[i].completed,
        forall|i: int, j: int|
            0 <= i < j < rows.len() ==> (#[trigger] rows[i]).id@ != (#[trigger] rows[j]).id@,
    ensures
        flags_of_rows(changed) == flags_of_rows(rows).insert(rows[at].id@, changed[at].completed),
    decreases rows.len(),
{
    let init = rows.drop_last();
    let changed_init = changed.drop_last();
    if at == rows.len() - 1 {
        lemma_flags_same(init, changed_init);
        assert(flags_of_rows(changed) =~= flags_of_rows(rows).insert(
            rows[at].id@,
            changed[at].completed,
        ));
    } else {
        assert(rows[at].id@ != rows[rows.len() - 1].id@);
        assert(changed[rows.len() - 1].completed == rows[rows.len() - 1].completed);
        assert forall|i: int, j: int| 0 <= i < j < init.len() implies (#[trigger] init[i]).id@ != (
        #[trigger] init[j]).id@ by {
            assert(rows[i].id@ != rows[j].id@);
        }
        assert forall|i: int| 0 <= i < init.len() implies (#[trigger] changed_init[i]).id@
            == init[i].id@ by {
            assert(changed[i].id@ == rows[i].id@);
        }
        assert forall|i: int| 0 <= i < init.len() && i != at implies (
        #[trigger] changed_init[i]).completed == init[i].completed by {
            assert(changed[i].completed == rows[i].completed);
        }
        lemma_flags_update(init, changed_init, at);
        assert(flags_of_rows(changed) =~= flags_of_rows(rows).insert(
            rows[at].id@,
            changed[at].completed,
        ));
    }
}

/// Rows that name the same videos with the same flags stand for the same
/// flags.
proof fn lemma_flags_same(rows: Seq<CtcVideoCompletionRow>, other: Seq<CtcVideoCompletionRow>)
    requires
        rows.len() == other.len(),
        forall|i: int|
            0 <= i < rows.len() ==> (#[trigger] rows[i]).id@ == other[i].id@ && rows[i].completed
                == other[i].completed,
    ensures
        flags_of_rows(rows) == flags_of_rows(other),
    decreases rows.len(),
{
    if rows.len() > 0 {
        assert forall|i: int| 0 <= i < rows.len() - 1 implies (#[trigger] rows.drop_last()[i]).id@
            == other.drop_last()[i].id@ && rows.drop_last()[i].completed
            == other.drop_last()[i].completed by {
            assert(rows[i].id@ == other[i].id@);
        }
        lemma_flags_same(rows.drop_last(), other.drop_last());
        assert(rows[rows.len() - 1].id@ == other[rows.len() - 1].id@);
    }
}

impl CompletionFlags {
    /// No video is named by two rows.
    #[verifier::type_invariant]
    spec fn no_video_twice(self) -> bool {
        forall|i: int, j: int|
            0 <= i < j < self.rows@.len() ==> (#[trigger] self.rows@[i]).id@ != (
            #[trigger] self.rows@[j]).id@
    }

    /// No flags at all.
    pub fn new() -> (flags: Self)
        ensures
            flags@ == Map::<Seq<char>, bool>::empty(),
    {
        CompletionFlags { rows: Vec::new() }
    }

    /// The flags that the rows of the flag table stand for.
    pub fn from_rows(rows: Vec<CtcVideoCompletionRow>) -> (flags: Self)
        ensures
            flags@ == flags_of_rows(rows@),
    {
        let ghost all = rows@;
        let mut flags = CompletionFlags::new();
        proof {
            assert(all.take(0) =~= Seq::empty());
        }
        for row in it: rows
            invariant
                it.seq() == all,
                flags@ == flags_of_rows(all.take(it.index() as int)),
        {
            proof {
                let k = it.index() as int;
                assert(all.take(k + 1).drop_last() =~= all.take(k));
                assert(all.take(k + 1).last() == row);
            }
            if flags.contains(&row.id) {
                let _ = flags.set(&row.id, row.completed);
            } else {
                flags.put_if_absent(&row.id, row.completed);
            }
        }
        assert(all.take(all.len() as int) =~= all);
        flags
    }

    /// The position of the row that names `id`, if there is one.
    fn position(&self, id: &VideoId) -> (at: Option<usize>)
        ensures
            match at {
                Some(i) => i < self.rows@.len() && self.rows@[i as int].id@ == id@,
                None => !self@.dom().contains(id@),
            },
    {
        let mut i: usize = 0;
        while i < self.rows.len()
            invariant
                i <= self.rows.len(),
                forall|k: int| 0 <= k < i ==> (#[trigger] self.rows@[k]).id@ != id@,
            decreases self.rows.len() - i,
        {
            if self.rows[i].id == *id {
                return Some(i);
            }
            i += 1;
        }
        proof {
            lemma_flags_domain(self.rows@);
        }
        None
    }

    /// The flag of the video `id`, if it has one.
    pub fn get(&self, id: &VideoId) -> (flag: Option<bool>)
        ensures
            flag == if self@.dom().contains(id@) {
                Some(self@[id@])
            } else {
                None
            },
    {
        match self.position(id) {
            Some(i) => {
                proof {
                    use_type_invariant(self);
                    lemma_flags_lookup(self.rows@, i as int);
                }
                Some(self.rows[i].completed)
            },
            None => None,
        }
    }

    /// Whether the video `id` has a flag.
    pub fn contains(&self, id: &VideoId) -> (b: bool)
        ensures
            b == self@.dom().contains(id@),
    {
        self.get(id).is_some()
    }

    /// The number of flags.
    pub fn len(&self) -> (n: usize)
        ensures
            n == self@.dom().len(),
    {
        proof {
            use_type_invariant(self);
            Self::lemma_count(self.rows@);
        }
        self.rows.len()
    }

    /// With no video named twice there are as many flags as rows.
    proof fn lemma_count(rows: Seq<CtcVideoCompletionRow>)
        requires
            forall|i: int, j: int|
                0 <= i < j < rows.len() ==> (#[trigger] rows[i]).id@ != (#[trigger] rows[j]).id@,
        ensures
            flags_of_rows(rows).dom().len() == rows.len(),
            flags_of_rows(rows).dom().finite(),
        decreases rows.len(),
    {
        lemma_flags_domain(rows);
        if rows.len() > 0 {
            let init = rows.drop_last();
            assert forall|i: int, j: int| 0 <= i < j < init.len() implies (
            #[trigger] init[i]).id@ != (#[trigger] init[j]).id@ by {
                assert(rows[i].id@ != rows[j].id@);
            }
            Self::lemma_count(init);
            lemma_flags_domain(init);
            if flags_of_rows(init).dom().contains(rows.last().id@) {
                let i = choose|i: int|
                    0 <= i < init.len() && (#[trigger] init[i]).id@ == rows.last().id@;
                assert(rows[i].id@ != rows[rows.len() - 1].id@);
            }
        }
    }

    /// Changes the flag of the video `id`. A video without a flag gets none:
    /// the change is turned down and the flags stay as they were.
    pub fn set(&mut self, id: &VideoId, completed: bool) -> (done: Result<(), FlagError>)
        ensures
            old(self)@.dom().contains(id@) ==> done is Ok && final(self)@ == old(self)@.insert(
                id@,
                completed,
            ),
            !old(self)@.dom().contains(id@) ==> done == Err::<(), FlagError>(FlagError::UnknownVideo)
                && final(self)@ == old(self)@,
    {
        match self.position(id) {
            Some(i) => {
                let ghost before = self.rows@;
                proof {
                    use_type_invariant(&*self);
                    lemma_flags_domain(before);
                }
                let row = CtcVideoCompletionRow { id: id.clone(), completed };
                let mut rows: Vec<CtcVideoCompletionRow> = Vec::new();
                core::mem::swap(&mut rows, &mut self.rows);
                rows.set(i, row);
                proof {
                    lemma_flags_update(before, rows@, i as int);
                    assert forall|a: int, b: int| 0 <= a < b < rows@.len() implies (
                    #[trigger] rows@[a]).id@ != (#[trigger] rows@[b]).id@ by {
                        assert(before[a].id@ != before[b].id@);
                    }
                }
                self.rows = rows;
                Ok(())
            },
            None => Err(FlagError::UnknownVideo),
        }
    }

    /// Gives the video `id` the flag "not completed" if it has no flag yet.
    pub fn ensure(&mut self, id: &VideoId)
        ensures
            final(self)@ == if old(self)@.dom().contains(id@) {
                old(self)@
            } else {
                old(self)@.insert(id@, false)
            },
    {
        self.put_if_absent(id, false);
    }

    /// Gives the video `id` the flag `completed` if it has no flag yet.
    fn put_if_absent(&mut self, id: &VideoId, completed: bool)
        ensures
            final(self)@ == if old(self)@.dom().contains(id@) {
                old(self)@
            } else {
                old(self)@.insert(id@, completed)
            },
    {
        match self.position(id) {
            Some(_) => {
                proof {
                    lemma_flags_domain(self.rows@);
                }
            },
            None => {
                let ghost before = self.rows@;
                proof {
                    use_type_invariant(&*self);
                    lemma_flags_domain(before);
                }
                let row = CtcVideoCompletionRow { id: id.clone(), completed };
                let mut rows: Vec<CtcVideoCompletionRow> = Vec::new();
                core::mem::swap(&mut rows, &mut self.rows);
                rows.push(row);
                proof {
                    assert(rows@.drop_last() =~= before);
                    assert forall|a: int, b: int| 0 <= a < b < rows@.len() implies (
                    #[trigger] rows@[a]).id@ != (#[trigger] rows@[b]).id@ by {
                        if b < before.len() {
                            assert(before[a].id@ != before[b].id@);
                        } else {
                            assert(before[a].id@ != id@);
                        }
                    }
                }
                self.rows = rows;
            },
        }
    }

    /// The identifiers of the videos that have a flag.
    pub fn known_ids(&self) -> (ids: Vec<VideoId>)
        ensures
            id_views(ids@).to_set() == self@.dom(),
    {
        let mut ids: Vec<VideoId> = Vec::new();
        let mut i: usize = 0;
        while i < self.rows.len()
            invariant
                i <= self.rows.len(),
                ids@.len() == i,
                forall|k: int| 0 <= k < i ==> (#[trigger] ids@[k])@ == self.rows@[k].id@,
            decreases self.rows.len() - i,
        {
            ids.push(self.rows[i].id.clone());
            i += 1;
        }
        proof {
            lemma_flags_domain(self.rows@);
            assert forall|id: Seq<char>| id_views(ids@).to_set().contains(id) <==> self@.dom().contains(
                id,
            ) by {
                if id_views(ids@).to_set().contains(id) {
                    let k = choose|k: int| 0 <= k < ids@.len() && id_views(ids@)[k] == id;
                    assert(self.rows@[k].id@ == id);
                }
                if self@.dom().contains(id) {
                    let k = choose|k: int|
                        0 <= k < self.rows@.len() && (#[trigger] self.rows@[k]).id@ == id;
                    assert(id_views(ids@)[k] == id);
                }
            }
            assert(id_views(ids@).to_set() =~= self@.dom());
        }
        ids
    }
}

} // verus!
