//! Chain log: the append/rollback record of blocks and microblocks.
//!
//! Every entry gets a monotonically increasing uid at insert.  A non-null
//! `time_stamp` marks a finalized block; a null one marks a pending
//! microblock still subject to replacement.  The log supports renaming a
//! pending entry, discarding the whole pending tail, and rolling back to a
//! uid.

use vstd::prelude::*;

verus! {

/// A block or microblock to append: content id, height, and the finalized
/// timestamp, if any.
#[derive(Debug)]
pub struct BlockMicroblock {
    pub id: String,
    pub height: i32,
    pub time_stamp: Option<i64>,
}

/// A stored chain entry: a [`BlockMicroblock`] plus its assigned uid.
#[derive(Debug)]
pub struct ChainEntry {
    pub uid: i64,
    pub id: String,
    pub height: i32,
    pub time_stamp: Option<i64>,
}

/// The chain position ingestion resumes from.
#[derive(Clone, Copy, Debug, PartialEq, Eq, Structural)]
pub struct PrevHandledHeight {
    pub uid: i64,
    pub height: i32,
}

/// Uid of the first entry whose content id is `id`, if any.
pub open spec fn first_uid_of_id(entries: Seq<ChainEntry>, id: Seq<char>) -> Option<i64>
    decreases entries.len(),
{
    if entries.len() == 0 {
        None
    } else if entries[0].id@ == id {
        Some(entries[0].uid)
    } else {
        first_uid_of_id(entries.skip(1), id)
    }
}

/// Uid of the latest finalized entry, if any.
pub open spec fn last_finalized_uid(entries: Seq<ChainEntry>) -> Option<i64>
    decreases entries.len(),
{
    if entries.len() == 0 {
        None
    } else if entries.last().time_stamp is Some {
        Some(entries.last().uid)
    } else {
        last_finalized_uid(entries.drop_last())
    }
}

/// Content id of the latest pending entry, if any.
pub open spec fn last_pending_id(entries: Seq<ChainEntry>) -> Option<Seq<char>>
    decreases entries.len(),
{
    if entries.len() == 0 {
        None
    } else if entries.last().time_stamp is None {
        Some(entries.last().id@)
    } else {
        last_pending_id(entries.drop_last())
    }
}

/// The greatest height any entry carries, if any.
pub open spec fn max_height(entries: Seq<ChainEntry>) -> Option<int>
    decreases entries.len(),
{
    if entries.len() == 0 {
        None
    } else {
        let h = entries[0].height as int;
        match max_height(entries.skip(1)) {
            None => Some(h),
            Some(m) => if h > m {
                Some(h)
            } else {
                Some(m)
            },
        }
    }
}

/// The first entry standing at height `h`, if any.
pub open spec fn first_at_height(entries: Seq<ChainEntry>, h: int) -> Option<PrevHandledHeight>
    decreases entries.len(),
{
    if entries.len() == 0 {
        None
    } else if entries[0].height as int == h {
        Some(PrevHandledHeight { uid: entries[0].uid, height: entries[0].height })
    } else {
        first_at_height(entries.skip(1), h)
    }
}

/// The chain position one below the top: the first entry standing at the
/// maximal height minus one.
pub open spec fn prev_handled(entries: Seq<ChainEntry>) -> Option<PrevHandledHeight> {
    match max_height(entries) {
        None => None,
        Some(m) => first_at_height(entries, m - 1),
    }
}

/// The entries surviving a rollback to uid `b`, in order.
pub open spec fn entries_le(entries: Seq<ChainEntry>, b: i64) -> Seq<ChainEntry>
    decreases entries.len(),
{
    if entries.len() == 0 {
        Seq::empty()
    } else if entries[0].uid <= b {
        seq![entries[0]] + entries_le(entries.skip(1), b)
    } else {
        entries_le(entries.skip(1), b)
    }
}

/// The finalized entries, in order; what discarding the pending tail keeps.
pub open spec fn finalized_entries(entries: Seq<ChainEntry>) -> Seq<ChainEntry>
    decreases entries.len(),
{
    if entries.len() == 0 {
        Seq::empty()
    } else if entries[0].time_stamp is Some {
        seq![entries[0]] + finalized_entries(entries.skip(1))
    } else {
        finalized_entries(entries.skip(1))
    }
}

/// The append/rollback log of blocks and microblocks.
pub struct ChainLog {
    pub entries: Vec<ChainEntry>,
    pub next_uid: i64,
}

impl ChainLog {
    /// Uids appear in strictly increasing order and stay below the next one
    /// to be assigned.
    pub open spec fn well_formed(&self) -> bool {
        &&& forall|i: int, j: int|
            0 <= i < j < self.entries@.len() ==> (#[trigger] self.entries@[i]).uid < (
            #[trigger] self.entries@[j]).uid
        &&& forall|i: int|
            0 <= i < self.entries@.len() ==> (#[trigger] self.entries@[i]).uid < self.next_uid
    }

    /// An empty log; uids are assigned from `first_uid` on.
    pub fn new(first_uid: i64) -> (s: ChainLog)
        ensures
            s.entries@ == Seq::<ChainEntry>::empty(),
            s.next_uid == first_uid,
            s.well_formed(),
    {
        ChainLog { entries: Vec::new(), next_uid: first_uid }
    }

    /// Appends the given blocks/microblocks, assigning each the next uid, and
    /// returns the assigned uids in input order.
    pub fn insert_blocks_or_microblocks(&mut self, blocks: &Vec<BlockMicroblock>) -> (uids: Vec<
        i64,
    >)
        requires
            old(self).well_formed(),
            old(self).next_uid + blocks@.len() <= i64::MAX,
        ensures
            final(self).well_formed(),
            final(self).next_uid == old(self).next_uid + blocks@.len(),
            final(self).entries@.len() == old(self).entries@.len() + blocks@.len(),
            final(self).entries@.take(old(self).entries@.len() as int) == old(self).entries@,
            uids@.len() == blocks@.len(),
            forall|k: int|
                0 <= k < blocks@.len() ==> uids@[k] == old(self).next_uid + k,
            forall|k: int|
                0 <= k < blocks@.len() ==> {
                    let e = #[trigger] final(self).entries@[old(self).entries@.len() + k];
                    &&& e.uid == old(self).next_uid + k
                    &&& e.id@ == blocks@[k].id@
                    &&& e.height == blocks@[k].height
                    &&& e.time_stamp == blocks@[k].time_stamp
                },
    {
        let ghost orig = self.entries@;
        let ghost first = self.next_uid;
        let mut uids: Vec<i64> = Vec::new();
        let mut k: usize = 0;
        while k < blocks.len()
            invariant
                0 <= k <= blocks@.len(),
                first + blocks@.len() <= i64::MAX,
                self.next_uid == first + k,
                self.entries@.len() == orig.len() + k,
                self.entries@.take(orig.len() as int) == orig,
                uids@.len() == k,
                forall|t: int| 0 <= t < k ==> uids@[t] == first + t,
                forall|t: int|
                    0 <= t < k ==> {
                        let e = #[trigger] self.entries@[orig.len() + t];
                        &&& e.uid == first + t
                        &&& e.id@ == blocks@[t].id@
                        &&& e.height == blocks@[t].height
                        &&& e.time_stamp == blocks@[t].time_stamp
                    },
                old(self).well_formed(),
                orig == old(self).entries@,
                first == old(self).next_uid,
                self.well_formed(),
            decreases blocks@.len() - k,
        {
            let b = &blocks[k];
            let uid = self.next_uid;
            let entry = ChainEntry {
                uid,
                id: b.id.clone(),
                height: b.height,
                time_stamp: b.time_stamp,
            };
            self.entries.push(entry);
            uids.push(uid);
            self.next_uid = self.next_uid + 1;
            assert(self.entries@.take(orig.len() as int) =~= orig);
            k += 1;
        }
        uids
    }

    /// Uid of the first entry carrying the given content id; an unknown id
    /// is an error.
    pub fn get_block_uid(&self, block_id: &String) -> (r: Result<i64, crate::StoreError>)
        ensures
            r == match first_uid_of_id(self.entries@, block_id@) {
                Some(u) => Result::<i64, crate::StoreError>::Ok(u),
                None => Result::<i64, crate::StoreError>::Err(crate::StoreError::BlockIdNotFound),
            },
    {
        let mut i: usize = 0;
        let mut res: Option<i64> = None;
        assert(self.entries@.skip(0) =~= self.entries@);
        while i < self.entries.len()
            invariant
                0 <= i <= self.entries@.len(),
                match res {
                    Some(v) => first_uid_of_id(self.entries@, block_id@) == Some(v),
                    None => first_uid_of_id(self.entries@, block_id@) == first_uid_of_id(
                        self.entries@.skip(i as int),
                        block_id@,
                    ),
                },
            decreases self.entries@.len() - i,
        {
            if res.is_none() {
                let ghost rest = self.entries@.skip(i as int);
                assert(rest[0] == self.entries@[i as int]);
                assert(rest.skip(1) =~= self.entries@.skip(i as int + 1));
                let e = &self.entries[i];
                if e.id == *block_id {
                    res = Some(e.uid);
                }
            }
            i += 1;
        }
        if res.is_none() {
            assert(self.entries@.skip(self.entries@.len() as int) =~= Seq::<ChainEntry>::empty());
        }
        match res {
            Some(u) => Ok(u),
            None => Err(crate::StoreError::BlockIdNotFound),
        }
    }

    /// Uid of the latest finalized entry; a log with no finalized entry is
    /// an error.
    pub fn get_key_block_uid(&self) -> (r: Result<i64, crate::StoreError>)
        ensures
            r == match last_finalized_uid(self.entries@) {
                Some(u) => Result::<i64, crate::StoreError>::Ok(u),
                None => Result::<i64, crate::StoreError>::Err(crate::StoreError::NoKeyBlock),
            },
    {
        let mut i: usize = self.entries.len();
        let mut res: Option<i64> = None;
        assert(self.entries@.take(self.entries@.len() as int) =~= self.entries@);
        while i > 0
            invariant
                0 <= i <= self.entries@.len(),
                match res {
                    Some(v) => last_finalized_uid(self.entries@) == Some(v),
                    None => last_finalized_uid(self.entries@) == last_finalized_uid(
                        self.entries@.take(i as int),
                    ),
                },
            decreases i,
        {
            if res.is_none() {
                let ghost pre = self.entries@.take(i as int);
                assert(pre.last() == self.entries@[i as int - 1]);
                assert(pre.drop_last() =~= self.entries@.take(i as int - 1));
                let e = &self.entries[i - 1];
                if e.time_stamp.is_some() {
                    res = Some(e.uid);
                }
            }
            i -= 1;
        }
        if res.is_none() {
            assert(self.entries@.take(0) =~= Seq::<ChainEntry>::empty());
        }
        match res {
            Some(u) => Ok(u),
            None => Err(crate::StoreError::NoKeyBlock),
        }
    }

    /// Content id of the latest pending entry, if the tail has one.
    pub fn get_total_block_id(&self) -> (r: Option<String>)
        ensures
            match r {
                Some(id) => last_pending_id(self.entries@) == Some(id@),
                None => last_pending_id(self.entries@) is None,
            },
    {
        let mut i: usize = self.entries.len();
        let mut res: Option<String> = None;
        assert(self.entries@.take(self.entries@.len() as int) =~= self.entries@);
        while i > 0
            invariant
                0 <= i <= self.entries@.len(),
                match res {
                    Some(id) => last_pending_id(self.entries@) == Some(id@),
                    None => last_pending_id(self.entries@) == last_pending_id(
                        self.entries@.take(i as int),
                    ),
                },
            decreases i,
        {
            if res.is_none() {
                let ghost pre = self.entries@.take(i as int);
                assert(pre.last() == self.entries@[i as int - 1]);
                assert(pre.drop_last() =~= self.entries@.take(i as int - 1));
                let e = &self.entries[i - 1];
                if e.time_stamp.is_none() {
                    res = Some(e.id.clone());
                }
            }
            i -= 1;
        }
        if res.is_none() {
            assert(self.entries@.take(0) =~= Seq::<ChainEntry>::empty());
        }
        res
    }

    /// The chain position ingestion resumes from: the first entry one below
    /// the maximal height.
    pub fn get_prev_handled_height(&self) -> (r: Option<PrevHandledHeight>)
        ensures
            r == prev_handled(self.entries@),
    {
        if self.entries.len() == 0 {
            return None;
        }
        let mut best: i32 = self.entries[0].height;
        let mut i: usize = 1;
        assert(self.entries@.skip(0) =~= self.entries@);
        assert(self.entries@.skip(0)[0] == self.entries@[0]);
        assert(self.entries@.skip(0).skip(1) =~= self.entries@.skip(1));
        while i < self.entries.len()
            invariant
                1 <= i <= self.entries@.len(),
                max_height(self.entries@) == merge_height(
                    best as int,
                    max_height(self.entries@.skip(i as int)),
                ),
            decreases self.entries@.len() - i,
        {
            let ghost rest = self.entries@.skip(i as int);
            assert(rest[0] == self.entries@[i as int]);
            assert(rest.skip(1) =~= self.entries@.skip(i as int + 1));
            let h = self.entries[i].height;
            if h > best {
                best = h;
            }
            i += 1;
        }
        assert(self.entries@.skip(self.entries@.len() as int) =~= Seq::<ChainEntry>::empty());
        assert(max_height(self.entries@) == Some(best as int));
        let target: i64 = best as i64 - 1;
        let mut res: Option<PrevHandledHeight> = None;
        let mut j: usize = 0;
        assert(self.entries@.skip(0) =~= self.entries@);
        while j < self.entries.len()
            invariant
                0 <= j <= self.entries@.len(),
                target == best - 1,
                match res {
                    Some(p) => first_at_height(self.entries@, best - 1) == Some(p),
                    None => first_at_height(self.entries@, best - 1) == first_at_height(
                        self.entries@.skip(j as int),
                        best - 1,
                    ),
                },
            decreases self.entries@.len() - j,
        {
            if res.is_none() {
                let ghost rest = self.entries@.skip(j as int);
                assert(rest[0] == self.entries@[j as int]);
                assert(rest.skip(1) =~= self.entries@.skip(j as int + 1));
                let e = &self.entries[j];
                if e.height as i64 == target {
                    res = Some(PrevHandledHeight { uid: e.uid, height: e.height });
                }
            }
            j += 1;
        }
        if res.is_none() {
            assert(self.entries@.skip(self.entries@.len() as int) =~= Seq::<ChainEntry>::empty());
        }
        res
    }

    /// Renames the entry carrying `block_uid`: its content id becomes
    /// `new_block_id`; nothing else changes.
    pub fn change_block_id(&mut self, block_uid: &i64, new_block_id: &String)
        ensures
            final(self).next_uid == old(self).next_uid,
            final(self).entries@.len() == old(self).entries@.len(),
            forall|i: int|
                0 <= i < old(self).entries@.len() ==> {
                    let e0 = #[trigger] old(self).entries@[i];
                    let e1 = final(self).entries@[i];
                    if e0.uid == *block_uid {
                        &&& e1.uid == e0.uid
                        &&& e1.height == e0.height
                        &&& e1.time_stamp == e0.time_stamp
                        &&& e1.id@ == new_block_id@
                    } else {
                        e1 == e0
                    }
                },
            old(self).well_formed() ==> final(self).well_formed(),
    {
        let uid = *block_uid;
        let ghost orig = self.entries@;
        let mut out: Vec<ChainEntry> = Vec::new();
        while self.entries.len() > 0
            invariant
                self.next_uid == old(self).next_uid,
                out@.len() + self.entries@.len() == orig.len(),
                self.entries@ =~= orig.skip(out@.len() as int),
                forall|i: int|
                    0 <= i < out@.len() ==> {
                        let e0 = #[trigger] orig[i];
                        let e1 = out@[i];
                        if e0.uid == uid {
                            &&& e1.uid == e0.uid
                            &&& e1.height == e0.height
                            &&& e1.time_stamp == e0.time_stamp
                            &&& e1.id@ == new_block_id@
                        } else {
                            e1 == e0
                        }
                    },
            decreases self.entries@.len(),
        {
            let ghost rest = self.entries@;
            let ghost k = out@.len();
            let mut e = self.entries.remove(0);
            assert(rest[0] == orig[k as int]);
            assert(self.entries@ =~= rest.skip(1));
            assert(orig.skip(k as int).skip(1) =~= orig.skip(k as int + 1));
            if e.uid == uid {
                e.id = new_block_id.clone();
            }
            out.push(e);
        }
        self.entries = out;
        assert forall|i: int, j: int|
            0 <= i < j < self.entries@.len() && old(self).well_formed() implies (
        #[trigger] self.entries@[i]).uid < (#[trigger] self.entries@[j]).uid by {
            assert(self.entries@[i].uid == orig[i].uid);
            assert(self.entries@[j].uid == orig[j].uid);
        }
        assert forall|i: int|
            0 <= i < self.entries@.len() && old(self).well_formed() implies (
        #[trigger] self.entries@[i]).uid < self.next_uid by {
            assert(self.entries@[i].uid == orig[i].uid);
        }
    }

    /// Discards the pending tail: every entry with no finalized timestamp is
    /// removed, unconditionally.
    pub fn delete_microblocks(&mut self)
        ensures
            final(self).entries@ == finalized_entries(old(self).entries@),
            final(self).next_uid == old(self).next_uid,
            old(self).well_formed() ==> final(self).well_formed(),
    {
        let ghost orig = self.entries@;
        let mut out: Vec<ChainEntry> = Vec::new();
        while self.entries.len() > 0
            invariant
                self.next_uid == old(self).next_uid,
                orig == old(self).entries@,
                self.entries@.len() <= orig.len(),
                finalized_entries(orig) =~= out@ + finalized_entries(self.entries@),
                forall|i: int, j: int|
                    0 <= i < j < out@.len() ==> (#[trigger] out@[i]).uid < (#[trigger] out@[j]).uid
                        || !old(self).well_formed(),
                forall|i: int|
                    0 <= i < out@.len() ==> exists|j: int|
                        0 <= j < orig.len() - self.entries@.len() && #[trigger] out@[i] == orig[j],
                self.entries@ =~= orig.skip((orig.len() - self.entries@.len()) as int),
            decreases self.entries@.len(),
    {
            let ghost rest = self.entries@;
            let ghost k = orig.len() - rest.len();
            let e = self.entries.remove(0);
            assert(rest[0] == orig[k as int]);
            assert(self.entries@ =~= rest.skip(1));
            assert(orig.skip(k as int).skip(1) =~= orig.skip(k as int + 1));
            if e.time_stamp.is_some() {
                assert(finalized_entries(rest) =~= seq![e] + finalized_entries(rest.skip(1)));
                let ghost prev = out@;
                out.push(e);
                assert forall|i: int, j: int|
                    0 <= i < j < out@.len() && old(self).well_formed() implies (
                #[trigger] out@[i]).uid < (#[trigger] out@[j]).uid by {
                    if j < prev.len() {
                    } else {
                        let ji = choose|t: int|
                            0 <= t < orig.len() - rest.len() && #[trigger] prev[i] == orig[t];
                        assert(orig[ji].uid < orig[k as int].uid);
                    }
                }
            } else {
                assert(finalized_entries(rest) =~= finalized_entries(rest.skip(1)));
            }
        }
        assert(finalized_entries(self.entries@) =~= Seq::<ChainEntry>::empty());
        assert(out@ =~= finalized_entries(orig));
        self.entries = out;
        assert forall|i: int|
            0 <= i < self.entries@.len() && old(self).well_formed() implies (
        #[trigger] self.entries@[i]).uid < self.next_uid by {
            let j = choose|j: int|
                0 <= j < orig.len() && #[trigger] self.entries@[i] == orig[j];
        }
    }

    /// Rolls the log back to uid `block_uid`: every entry above it is
    /// removed.
    pub fn rollback_blocks_microblocks(&mut self, block_uid: &i64)
        ensures
            final(self).entries@ == entries_le(old(self).entries@, *block_uid),
            final(self).next_uid == old(self).next_uid,
            old(self).well_formed() ==> final(self).well_formed(),
    {
        let b = *block_uid;
        let ghost orig = self.entries@;
        let mut out: Vec<ChainEntry> = Vec::new();
        while self.entries.len() > 0
            invariant
                self.next_uid == old(self).next_uid,
                orig == old(self).entries@,
                self.entries@.len() <= orig.len(),
                entries_le(orig, b) =~= out@ + entries_le(self.entries@, b),
                forall|i: int|
                    0 <= i < out@.len() ==> exists|j: int|
                        0 <= j < orig.len() - self.entries@.len() && #[trigger] out@[i] == orig[j],
                forall|i: int, j: int|
                    0 <= i < j < out@.len() ==> (#[trigger] out@[i]).uid < (#[trigger] out@[j]).uid
                        || !old(self).well_formed(),
                self.entries@ =~= orig.skip((orig.len() - self.entries@.len()) as int),
            decreases self.entries@.len(),
        {
            let ghost rest = self.entries@;
            let ghost k = orig.len() - rest.len();
            let e = self.entries.remove(0);
            assert(rest[0] == orig[k as int]);
            assert(self.entries@ =~= rest.skip(1));
            assert(orig.skip(k as int).skip(1) =~= orig.skip(k as int + 1));
            if e.uid <= b {
                assert(entries_le(rest, b) =~= seq![e] + entries_le(rest.skip(1), b));
                let ghost prev = out@;
                out.push(e);
                assert forall|i: int, j: int|
                    0 <= i < j < out@.len() && old(self).well_formed() implies (
                #[trigger] out@[i]).uid < (#[trigger] out@[j]).uid by {
                    if j < prev.len() {
                    } else {
                        let ji = choose|t: int|
                            0 <= t < orig.len() - rest.len() && #[trigger] prev[i] == orig[t];
                        assert(orig[ji].uid < orig[k as int].uid);
                    }
                }
            } else {
                assert(entries_le(rest, b) =~= entries_le(rest.skip(1), b));
            }
        }
        assert(entries_le(self.entries@, b) =~= Seq::<ChainEntry>::empty());
        assert(out@ =~= entries_le(orig, b));
        self.entries = out;
        assert forall|i: int|
            0 <= i < self.entries@.len() && old(self).well_formed() implies (
        #[trigger] self.entries@[i]).uid < self.next_uid by {
            let j = choose|j: int|
                0 <= j < orig.len() && #[trigger] self.entries@[i] == orig[j];
        }
    }
}

/// The greater of a known height and an optional one.
pub open spec fn merge_height(h: int, rest: Option<int>) -> Option<int> {
    match rest {
        None => Some(h),
        Some(m) => if h > m {
            Some(h)
        } else {
            Some(m)
        },
    }
}

} // verus!
