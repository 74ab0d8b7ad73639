//! Unit-of-work façade: one storage state holding every table, with the
//! snapshot/rollback pair that makes a workflow all-or-nothing.
//!
//! A caller takes a snapshot before a workflow, runs any sequence of
//! operations, and on the first failure restores the snapshot: either the
//! whole workflow is applied or none of it is.  Commit is implicit — the
//! operations already wrote the state.

use vstd::prelude::*;

use crate::assets::{AssetLedger, AssetOrigin, AssetUpdate};
use crate::chain_log::{ChainEntry, ChainLog};
use crate::tx_store::TxStore;
use crate::txs::{
    Tx1, Tx2, Tx3, Tx4, Tx5, Tx6, Tx7, Tx8, Tx9, Tx10, Tx11, Tx11Transfers, Tx12, Tx12Data, Tx13,
    Tx14, Tx15, Tx16, Tx16Args, Tx16Payment, Tx17, Tx18, Tx18Args, Tx18Payment, TxIdUid,
};
use crate::waves_data::{RunningTotals, TotalRow};

verus! {

/// A row whose clone is the same value.
pub trait CloneRow: Sized {
    /// An exact copy.
    fn clone_row(&self) -> (r: Self)
        ensures
            r == *self;
}

/// An exact copy of a whole table.
pub fn clone_table<T: CloneRow>(v: &Vec<T>) -> (r: Vec<T>)
    ensures
        r@ == v@,
{
    let mut out: Vec<T> = Vec::new();
    let mut i: usize = 0;
    while i < v.len()
        invariant
            0 <= i <= v@.len(),
            out@ =~= v@.take(i as int),
        decreases v@.len() - i,
    {
        out.push(v[i].clone_row());
        assert(out@ =~= v@.take(i as int + 1));
        i += 1;
    }
    assert(out@ =~= v@);
    out
}

impl CloneRow for AssetUpdate {
    fn clone_row(&self) -> (r: Self) {
        self.clone()
    }
}

impl CloneRow for AssetOrigin {
    fn clone_row(&self) -> (r: Self) {
        self.clone()
    }
}

impl CloneRow for ChainEntry {
    fn clone_row(&self) -> (r: Self) {
        ChainEntry {
            uid: self.uid,
            id: self.id.clone(),
            height: self.height,
            time_stamp: self.time_stamp,
        }
    }
}

impl CloneRow for TotalRow {
    fn clone_row(&self) -> (r: Self) {
        *self
    }
}

impl CloneRow for TxIdUid {
    fn clone_row(&self) -> (r: Self) {
        self.clone()
    }
}

impl CloneRow for Tx1 {
    fn clone_row(&self) -> (r: Self) {
        self.clone()
    }
}

impl CloneRow for Tx2 {
    fn clone_row(&self) -> (r: Self) {
        self.clone()
    }
}

impl CloneRow for Tx3 {
    fn clone_row(&self) -> (r: Self) {
        self.clone()
    }
}

impl CloneRow for Tx4 {
    fn clone_row(&self) -> (r: Self) {
        self.clone()
    }
}

impl CloneRow for Tx5 {
    fn clone_row(&self) -> (r: Self) {
        self.clone()
    }
}

impl CloneRow for Tx6 {
    fn clone_row(&self) -> (r: Self) {
        self.clone()
    }
}

impl CloneRow for Tx7 {
    fn clone_row(&self) -> (r: Self) {
        self.clone()
    }
}

impl CloneRow for Tx8 {
    fn clone_row(&self) -> (r: Self) {
        self.clone()
    }
}

impl CloneRow for Tx9 {
    fn clone_row(&self) -> (r: Self) {
        self.clone()
    }
}

impl CloneRow for Tx10 {
    fn clone_row(&self) -> (r: Self) {
        self.clone()
    }
}

impl CloneRow for Tx11 {
    fn clone_row(&self) -> (r: Self) {
        self.clone()
    }
}

impl CloneRow for Tx12 {
    fn clone_row(&self) -> (r: Self) {
        self.clone()
    }
}

impl CloneRow for Tx13 {
    fn clone_row(&self) -> (r: Self) {
        self.clone()
    }
}

impl CloneRow for Tx14 {
    fn clone_row(&self) -> (r: Self) {
        self.clone()
    }
}

impl CloneRow for Tx15 {
    fn clone_row(&self) -> (r: Self) {
        self.clone()
    }
}

impl CloneRow for Tx16 {
    fn clone_row(&self) -> (r: Self) {
        self.clone()
    }
}

impl CloneRow for Tx17 {
    fn clone_row(&self) -> (r: Self) {
        self.clone()
    }
}

impl CloneRow for Tx18 {
    fn clone_row(&self) -> (r: Self) {
        self.clone()
    }
}

impl CloneRow for Tx11Transfers {
    fn clone_row(&self) -> (r: Self) {
        self.clone()
    }
}

impl CloneRow for Tx12Data {
    fn clone_row(&self) -> (r: Self) {
        self.clone()
    }
}

impl CloneRow for Tx16Args {
    fn clone_row(&self) -> (r: Self) {
        self.clone()
    }
}

impl CloneRow for Tx16Payment {
    fn clone_row(&self) -> (r: Self) {
        self.clone()
    }
}

impl CloneRow for Tx18Args {
    fn clone_row(&self) -> (r: Self) {
        self.clone()
    }
}

impl CloneRow for Tx18Payment {
    fn clone_row(&self) -> (r: Self) {
        self.clone()
    }
}

/// The whole write-path state: chain log, asset ledger, running totals,
/// and the transaction tables.
pub struct Storage {
    pub chain: ChainLog,
    pub assets: AssetLedger,
    pub totals: RunningTotals,
    pub txs: TxStore,
}

/// Two storage states carrying the same contents.
pub open spec fn state_eq(a: Storage, b: Storage) -> bool {
    &&& a.chain.entries@ == b.chain.entries@
    &&& a.chain.next_uid == b.chain.next_uid
    &&& a.assets.updates@ == b.assets.updates@
    &&& a.assets.origins@ == b.assets.origins@
    &&& a.assets.uid_seq == b.assets.uid_seq
    &&& a.totals.rows@ == b.totals.rows@

    &&& a.txs.txs@ == b.txs.txs@
    &&& a.txs.txs_1@ == b.txs.txs_1@
    &&& a.txs.txs_2@ == b.txs.txs_2@
    &&& a.txs.txs_3@ == b.txs.txs_3@
    &&& a.txs.txs_4@ == b.txs.txs_4@
    &&& a.txs.txs_5@ == b.txs.txs_5@
    &&& a.txs.txs_6@ == b.txs.txs_6@
    &&& a.txs.txs_7@ == b.txs.txs_7@
    &&& a.txs.txs_8@ == b.txs.txs_8@
    &&& a.txs.txs_9@ == b.txs.txs_9@
    &&& a.txs.txs_10@ == b.txs.txs_10@
    &&& a.txs.txs_11@ == b.txs.txs_11@
    &&& a.txs.txs_12@ == b.txs.txs_12@
    &&& a.txs.txs_13@ == b.txs.txs_13@
    &&& a.txs.txs_14@ == b.txs.txs_14@
    &&& a.txs.txs_15@ == b.txs.txs_15@
    &&& a.txs.txs_16@ == b.txs.txs_16@
    &&& a.txs.txs_17@ == b.txs.txs_17@
    &&& a.txs.txs_18@ == b.txs.txs_18@
    &&& a.txs.txs_11_transfers@ == b.txs.txs_11_transfers@
    &&& a.txs.txs_12_data@ == b.txs.txs_12_data@
    &&& a.txs.txs_16_args@ == b.txs.txs_16_args@
    &&& a.txs.txs_16_payment@ == b.txs.txs_16_payment@
    &&& a.txs.txs_18_args@ == b.txs.txs_18_args@
    &&& a.txs.txs_18_payment@ == b.txs.txs_18_payment@
}

impl Storage {
    /// An empty state: no chain entries, no versions, no totals, no
    /// transactions; uids are assigned from `first_uid` on.
    pub fn new(first_uid: i64) -> (s: Storage)
        ensures
            s.chain.entries@ == Seq::<ChainEntry>::empty(),
            s.chain.next_uid == first_uid,
            s.chain.well_formed(),
            s.assets.updates@ == Seq::<AssetUpdate>::empty(),
            s.assets.origins@ == Seq::<AssetOrigin>::empty(),
            s.assets.uid_seq == first_uid,
            s.totals.rows@ == Seq::<TotalRow>::empty(),

            s.txs.txs@.len() == 0,
            s.txs.txs_1@.len() == 0,
            s.txs.txs_2@.len() == 0,
            s.txs.txs_3@.len() == 0,
            s.txs.txs_4@.len() == 0,
            s.txs.txs_5@.len() == 0,
            s.txs.txs_6@.len() == 0,
            s.txs.txs_7@.len() == 0,
            s.txs.txs_8@.len() == 0,
            s.txs.txs_9@.len() == 0,
            s.txs.txs_10@.len() == 0,
            s.txs.txs_11@.len() == 0,
            s.txs.txs_12@.len() == 0,
            s.txs.txs_13@.len() == 0,
            s.txs.txs_14@.len() == 0,
            s.txs.txs_15@.len() == 0,
            s.txs.txs_16@.len() == 0,
            s.txs.txs_17@.len() == 0,
            s.txs.txs_18@.len() == 0,
            s.txs.txs_11_transfers@.len() == 0,
            s.txs.txs_12_data@.len() == 0,
            s.txs.txs_16_args@.len() == 0,
            s.txs.txs_16_payment@.len() == 0,
            s.txs.txs_18_args@.len() == 0,
            s.txs.txs_18_payment@.len() == 0,
    {
        Storage {
            chain: ChainLog::new(first_uid),
            assets: AssetLedger::new(first_uid),
            totals: RunningTotals::new(),
            txs: TxStore::new(),
        }
    }

    /// Opens a unit of work: an exact copy of the state, to be restored on
    /// failure.
    pub fn begin(&self) -> (snap: Storage)
        ensures
            state_eq(snap, *self),
    {
        Storage {
            chain: ChainLog {
                entries: clone_table(&self.chain.entries),
                next_uid: self.chain.next_uid,
            },
            assets: AssetLedger {
                updates: clone_table(&self.assets.updates),
                origins: clone_table(&self.assets.origins),
                uid_seq: self.assets.uid_seq,
            },
            totals: RunningTotals { rows: clone_table(&self.totals.rows) },
            txs: TxStore {

                txs: clone_table(&self.txs.txs),
                txs_1: clone_table(&self.txs.txs_1),
                txs_2: clone_table(&self.txs.txs_2),
                txs_3: clone_table(&self.txs.txs_3),
                txs_4: clone_table(&self.txs.txs_4),
                txs_5: clone_table(&self.txs.txs_5),
                txs_6: clone_table(&self.txs.txs_6),
                txs_7: clone_table(&self.txs.txs_7),
                txs_8: clone_table(&self.txs.txs_8),
                txs_9: clone_table(&self.txs.txs_9),
                txs_10: clone_table(&self.txs.txs_10),
                txs_11: clone_table(&self.txs.txs_11),
                txs_12: clone_table(&self.txs.txs_12),
                txs_13: clone_table(&self.txs.txs_13),
                txs_14: clone_table(&self.txs.txs_14),
                txs_15: clone_table(&self.txs.txs_15),
                txs_16: clone_table(&self.txs.txs_16),
                txs_17: clone_table(&self.txs.txs_17),
                txs_18: clone_table(&self.txs.txs_18),
                txs_11_transfers: clone_table(&self.txs.txs_11_transfers),
                txs_12_data: clone_table(&self.txs.txs_12_data),
                txs_16_args: clone_table(&self.txs.txs_16_args),
                txs_16_payment: clone_table(&self.txs.txs_16_payment),
                txs_18_args: clone_table(&self.txs.txs_18_args),
                txs_18_payment: clone_table(&self.txs.txs_18_payment),
            },
        }
    }

    /// Aborts a unit of work: the state returns to the snapshot, as if no
    /// operation of the workflow had run.
    pub fn rollback(&mut self, snap: Storage)
        ensures
            *final(self) == snap,
    {
        *self = snap;
    }
}

} // verus!

