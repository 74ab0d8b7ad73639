//! Asset version ledger: a forward-pointing supersession chain per asset.
//!
//! Each version row is either open (`superseded_by` holds [`MAX_UID`], the
//! reserved "no successor yet" value) or closed (`superseded_by` holds the
//! uid of the row that replaced it).  Inserting a new version closes the
//! previously open one; rolling the chain back deletes rows above a block
//! uid and reopens every survivor whose successor was deleted.

use vstd::prelude::*;

use crate::chunker::{TableRow, chunked, insert_dedup, table_has_key};

verus! {

/// Reserved `superseded_by` value meaning "currently active".
pub const MAX_UID: i64 = i64::MAX - 1;

/// Columns of the asset version table; fixes its chunk size.
pub const ASSET_UPDATES_COLUMNS: usize = 12;

/// Columns of the asset origin table; fixes its chunk size.
pub const ASSET_ORIGINS_COLUMNS: usize = 6;

pub type BlockUid = i64;

pub type UpdateUid = i64;

/// One version of an asset's mutable attributes.
#[derive(Debug)]
pub struct AssetUpdate {
    pub block_uid: i64,
    pub uid: i64,
    pub superseded_by: i64,
    pub asset_id: String,
    pub decimals: i16,
    pub name: String,
    pub description: String,
    pub reissuable: bool,
    pub volume: i64,
    pub script: Option<String>,
    pub sponsorship: Option<i64>,
    pub nft: bool,
}

impl Clone for AssetUpdate {
    fn clone(&self) -> (res: Self)
        ensures
            res == *self,
    {
        AssetUpdate {
            block_uid: self.block_uid,
            uid: self.uid,
            superseded_by: self.superseded_by,
            asset_id: self.asset_id.clone(),
            decimals: self.decimals,
            name: self.name.clone(),
            description: self.description.clone(),
            reissuable: self.reissuable,
            volume: self.volume,
            script: self.script.clone(),
            sponsorship: self.sponsorship,
            nft: self.nft,
        }
    }
}

/// Version identity for in-memory set operations is the asset id alone.
impl PartialEq for AssetUpdate {
    fn eq(&self, other: &AssetUpdate) -> bool {
        self.asset_id == other.asset_id
    }
}

impl vstd::std_specs::cmp::PartialEqSpecImpl for AssetUpdate {
    open spec fn obeys_eq_spec() -> bool {
        true
    }

    open spec fn eq_spec(&self, other: &AssetUpdate) -> bool {
        self.asset_id@ == other.asset_id@
    }
}

impl Eq for AssetUpdate {}

impl TableRow for AssetUpdate {
    /// Conflict key of the version table: `(superseded_by, asset_id)`, so a
    /// replayed "new open version" is skipped, not duplicated.
    open spec fn conflict_key(&self) -> (int, int, Seq<char>) {
        (self.superseded_by as int, 0, self.asset_id@)
    }

    fn same_key(&self, other: &Self) -> (b: bool) {
        self.superseded_by == other.superseded_by && self.asset_id == other.asset_id
    }
}

/// A pending supersession edit: the open row of `id` is to point at
/// `superseded_by`.
#[derive(Debug)]
pub struct AssetOverride {
    pub superseded_by: i64,
    pub id: String,
}

/// A version removed by rollback: its uid and its asset id.
#[derive(Debug)]
pub struct DeletedAsset {
    pub uid: i64,
    pub id: String,
}

impl PartialEq for DeletedAsset {
    fn eq(&self, other: &Self) -> bool {
        self.id == other.id
    }
}

impl vstd::std_specs::cmp::PartialEqSpecImpl for DeletedAsset {
    open spec fn obeys_eq_spec() -> bool {
        true
    }

    open spec fn eq_spec(&self, other: &DeletedAsset) -> bool {
        self.id@ == other.id@
    }
}

impl Eq for DeletedAsset {}

/// The immutable once-per-asset origin record.
#[derive(Debug)]
pub struct AssetOrigin {
    pub asset_id: String,
    pub first_asset_update_uid: i64,
    pub origin_transaction_id: String,
    pub issuer: String,
    pub issue_height: i32,
    pub issue_time_stamp: i64,
}

impl Clone for AssetOrigin {
    fn clone(&self) -> (res: Self)
        ensures
            res == *self,
    {
        AssetOrigin {
            asset_id: self.asset_id.clone(),
            first_asset_update_uid: self.first_asset_update_uid,
            origin_transaction_id: self.origin_transaction_id.clone(),
            issuer: self.issuer.clone(),
            issue_height: self.issue_height,
            issue_time_stamp: self.issue_time_stamp,
        }
    }
}

impl TableRow for AssetOrigin {
    /// Conflict key of the origin table: the asset id; an origin is written
    /// once and never replaced.
    open spec fn conflict_key(&self) -> (int, int, Seq<char>) {
        (0, 0, self.asset_id@)
    }

    fn same_key(&self, other: &Self) -> (b: bool) {
        self.asset_id == other.asset_id
    }
}

/// A version row is open while its `superseded_by` still holds the sentinel.
pub open spec fn is_open(r: AssetUpdate) -> bool {
    r.superseded_by == MAX_UID
}

/// At most one open version per asset id.
pub open spec fn unique_open(s: Seq<AssetUpdate>) -> bool {
    forall|i: int, j: int|
        0 <= i < j < s.len() && is_open(#[trigger] s[i]) && is_open(#[trigger] s[j]) ==> s[i].asset_id@
            != s[j].asset_id@
}

/// The row unchanged but for its successor pointer.
pub open spec fn with_superseded_by(r: AssetUpdate, v: i64) -> AssetUpdate {
    AssetUpdate { superseded_by: v, ..r }
}

/// The row unchanged but for its owning block.
pub open spec fn with_block_uid(r: AssetUpdate, v: i64) -> AssetUpdate {
    AssetUpdate { block_uid: v, ..r }
}

/// The first override for `asset_id`, if any.
pub open spec fn find_override(ovs: Seq<AssetOverride>, asset_id: Seq<char>) -> Option<i64>
    decreases ovs.len(),
{
    if ovs.len() == 0 {
        None
    } else if ovs[0].id@ == asset_id {
        Some(ovs[0].superseded_by)
    } else {
        find_override(ovs.skip(1), asset_id)
    }
}

/// One row under a batch of supersession edits: an open row whose asset has
/// an override is closed by it; every other row is untouched.
pub open spec fn close_row(r: AssetUpdate, ovs: Seq<AssetOverride>) -> AssetUpdate {
    if r.superseded_by == MAX_UID {
        match find_override(ovs, r.asset_id@) {
            Some(sb) => with_superseded_by(r, sb),
            None => r,
        }
    } else {
        r
    }
}

/// The whole table under a batch of supersession edits.
pub open spec fn spec_close(table: Seq<AssetUpdate>, ovs: Seq<AssetOverride>) -> Seq<AssetUpdate> {
    table.map_values(|r: AssetUpdate| close_row(r, ovs))
}

/// One row under reopening: a row whose successor is among `uids` becomes
/// open again; every other row is untouched.
pub open spec fn reopen_row(r: AssetUpdate, uids: Seq<i64>) -> AssetUpdate {
    if uids.contains(r.superseded_by) {
        with_superseded_by(r, MAX_UID)
    } else {
        r
    }
}

/// The whole table under reopening against a set of deleted uids.
pub open spec fn spec_reopen(table: Seq<AssetUpdate>, uids: Seq<i64>) -> Seq<AssetUpdate> {
    table.map_values(|r: AssetUpdate| reopen_row(r, uids))
}

/// One row under block-reference repointing to `b`.
pub open spec fn repoint_row(r: AssetUpdate, b: i64) -> AssetUpdate {
    if r.block_uid > b {
        with_block_uid(r, b)
    } else {
        r
    }
}

/// The whole table under block-reference repointing.
pub open spec fn spec_repoint(table: Seq<AssetUpdate>, b: i64) -> Seq<AssetUpdate> {
    table.map_values(|r: AssetUpdate| repoint_row(r, b))
}

/// The rows surviving a rollback to block uid `b`, in order.
pub open spec fn kept_updates(table: Seq<AssetUpdate>, b: i64) -> Seq<AssetUpdate>
    decreases table.len(),
{
    if table.len() == 0 {
        Seq::empty()
    } else if table[0].block_uid > b {
        kept_updates(table.skip(1), b)
    } else {
        seq![table[0]] + kept_updates(table.skip(1), b)
    }
}

/// The rows a rollback to block uid `b` removes, as uid/asset pairs, in order.
pub open spec fn deleted_assets(table: Seq<AssetUpdate>, b: i64) -> Seq<DeletedAsset>
    decreases table.len(),
{
    if table.len() == 0 {
        Seq::empty()
    } else if table[0].block_uid > b {
        seq![DeletedAsset { uid: table[0].uid, id: table[0].asset_id }] + deleted_assets(
            table.skip(1),
            b,
        )
    } else {
        deleted_assets(table.skip(1), b)
    }
}

/// The version uids owned by blocks above `b`, in order.
pub open spec fn uids_above(table: Seq<AssetUpdate>, b: i64) -> Seq<i64>
    decreases table.len(),
{
    if table.len() == 0 {
        Seq::empty()
    } else if table[0].block_uid > b {
        seq![table[0].uid] + uids_above(table.skip(1), b)
    } else {
        uids_above(table.skip(1), b)
    }
}

/// The asset version ledger: the version table, the origin table, and the
/// externally visible uid counter versions are drawn from.
pub struct AssetLedger {
    pub updates: Vec<AssetUpdate>,
    pub origins: Vec<AssetOrigin>,
    pub uid_seq: i64,
}

impl AssetLedger {
    /// An empty ledger whose counter starts at `first_uid`.
    pub fn new(first_uid: i64) -> (s: AssetLedger)
        ensures
            s.updates@ == Seq::<AssetUpdate>::empty(),
            s.origins@ == Seq::<AssetOrigin>::empty(),
            s.uid_seq == first_uid,
    {
        AssetLedger { updates: Vec::new(), origins: Vec::new(), uid_seq: first_uid }
    }

    /// The value the uid counter stands at; independent of any insert.
    pub fn get_next_assets_uid(&self) -> (r: i64)
        ensures
            r == self.uid_seq,
    {
        self.uid_seq
    }

    /// Resynchronizes the uid counter; rollback never rewinds it by itself.
    pub fn set_assets_next_update_uid(&mut self, new_uid: i64)
        ensures
            final(self).uid_seq == new_uid,
            final(self).updates == old(self).updates,
            final(self).origins == old(self).origins,
    {
        self.uid_seq = new_uid;
    }

    /// Inserts version rows chunk by chunk; a row whose
    /// `(superseded_by, asset_id)` key is already present is skipped.
    pub fn insert_asset_updates(&mut self, updates: &Vec<AssetUpdate>)
        ensures
            final(self).updates@ == insert_dedup(old(self).updates@, updates@),
            final(self).origins == old(self).origins,
            final(self).uid_seq == old(self).uid_seq,
    {
        let mut rows: Vec<AssetUpdate> = Vec::new();
        let mut i: usize = 0;
        while i < updates.len()
            invariant
                0 <= i <= updates@.len(),
                rows@ =~= updates@.take(i as int),
            decreases updates@.len() - i,
        {
            rows.push(updates[i].clone());
            assert(rows@ =~= updates@.take(i as int + 1));
            i += 1;
        }
        assert(rows@ =~= updates@);
        chunked(&mut self.updates, rows, ASSET_UPDATES_COLUMNS);
    }

    /// Inserts origin rows chunk by chunk; an asset that already has an
    /// origin keeps it.
    pub fn insert_asset_origins(&mut self, origins: &Vec<AssetOrigin>)
        ensures
            final(self).origins@ == insert_dedup(old(self).origins@, origins@),
            final(self).updates == old(self).updates,
            final(self).uid_seq == old(self).uid_seq,
    {
        let mut rows: Vec<AssetOrigin> = Vec::new();
        let mut i: usize = 0;
        while i < origins.len()
            invariant
                0 <= i <= origins@.len(),
                rows@ =~= origins@.take(i as int),
            decreases origins@.len() - i,
        {
            rows.push(origins[i].clone());
            assert(rows@ =~= origins@.take(i as int + 1));
            i += 1;
        }
        assert(rows@ =~= origins@);
        chunked(&mut self.origins, rows, ASSET_ORIGINS_COLUMNS);
    }

    /// Closes every open row named by an override: its `superseded_by` is
    /// set to the override's successor uid.
    pub fn close_assets_superseded_by(&mut self, updates: &Vec<AssetOverride>)
        ensures
            final(self).updates@ == spec_close(old(self).updates@, updates@),
            final(self).origins == old(self).origins,
            final(self).uid_seq == old(self).uid_seq,
    {
        let ghost orig = self.updates@;
        let mut out: Vec<AssetUpdate> = Vec::new();
        while self.updates.len() > 0
            invariant
                self.origins == old(self).origins,
                self.uid_seq == old(self).uid_seq,
                out@ + spec_close(self.updates@, updates@) =~= spec_close(orig, updates@),
            decreases self.updates@.len(),
        {
            let ghost rest = self.updates@;
            let mut r = self.updates.remove(0);
            let ghost r0 = r;
            assert(self.updates@ =~= rest.skip(1));
            if r.superseded_by == MAX_UID {
                match find_override_exec(updates, &r.asset_id) {
                    Some(sb) => {
                        r.superseded_by = sb;
                    },
                    None => {},
                }
            }
            assert(r == close_row(r0, updates@));
            out.push(r);
            assert(spec_close(rest, updates@) =~= seq![close_row(r0, updates@)] + spec_close(
                rest.skip(1),
                updates@,
            ));
        }
        assert(spec_close(self.updates@, updates@) =~= Seq::<AssetUpdate>::empty());
        assert(out@ =~= spec_close(orig, updates@));
        self.updates = out;
    }

    /// Reopens every row whose successor uid is in `current_superseded_by`:
    /// its `superseded_by` returns to the sentinel.
    pub fn reopen_assets_superseded_by(&mut self, current_superseded_by: &Vec<i64>)
        ensures
            final(self).updates@ == spec_reopen(old(self).updates@, current_superseded_by@),
            final(self).origins == old(self).origins,
            final(self).uid_seq == old(self).uid_seq,
    {
        let ghost orig = self.updates@;
        let mut out: Vec<AssetUpdate> = Vec::new();
        while self.updates.len() > 0
            invariant
                self.origins == old(self).origins,
                self.uid_seq == old(self).uid_seq,
                out@ + spec_reopen(self.updates@, current_superseded_by@) =~= spec_reopen(
                    orig,
                    current_superseded_by@,
                ),
            decreases self.updates@.len(),
        {
            let ghost rest = self.updates@;
            let mut r = self.updates.remove(0);
            let ghost r0 = r;
            assert(self.updates@ =~= rest.skip(1));
            if contains_i64(current_superseded_by, r.superseded_by) {
                r.superseded_by = MAX_UID;
            }
            assert(r == reopen_row(r0, current_superseded_by@));
            out.push(r);
            assert(spec_reopen(rest, current_superseded_by@) =~= seq![
                reopen_row(r0, current_superseded_by@),
            ] + spec_reopen(rest.skip(1), current_superseded_by@));
        }
        assert(spec_reopen(self.updates@, current_superseded_by@) =~= Seq::<AssetUpdate>::empty());
        assert(out@ =~= spec_reopen(orig, current_superseded_by@));
        self.updates = out;
    }

    /// Re-points every version owned by a block above `block_uid` at
    /// `block_uid`, keeping versions attached to a block that still exists.
    pub fn update_assets_block_references(&mut self, block_uid: &i64)
        ensures
            final(self).updates@ == spec_repoint(old(self).updates@, *block_uid),
            final(self).origins == old(self).origins,
            final(self).uid_seq == old(self).uid_seq,
    {
        let b = *block_uid;
        let ghost orig = self.updates@;
        let mut out: Vec<AssetUpdate> = Vec::new();
        while self.updates.len() > 0
            invariant
                self.origins == old(self).origins,
                self.uid_seq == old(self).uid_seq,
                out@ + spec_repoint(self.updates@, b) =~= spec_repoint(orig, b),
            decreases self.updates@.len(),
        {
            let ghost rest = self.updates@;
            let mut r = self.updates.remove(0);
            let ghost r0 = r;
            assert(self.updates@ =~= rest.skip(1));
            if r.block_uid > b {
                r.block_uid = b;
            }
            assert(r == repoint_row(r0, b));
            out.push(r);
            assert(spec_repoint(rest, b) =~= seq![repoint_row(r0, b)] + spec_repoint(
                rest.skip(1),
                b,
            ));
        }
        assert(spec_repoint(self.updates@, b) =~= Seq::<AssetUpdate>::empty());
        assert(out@ =~= spec_repoint(orig, b));
        self.updates = out;
    }

    /// Deletes every version owned by a block above `block_uid` and returns
    /// their uid/asset pairs, in table order.
    pub fn rollback_assets(&mut self, block_uid: &i64) -> (deleted: Vec<DeletedAsset>)
        ensures
            final(self).updates@ == kept_updates(old(self).updates@, *block_uid),
            deleted@ == deleted_assets(old(self).updates@, *block_uid),
            final(self).origins == old(self).origins,
            final(self).uid_seq == old(self).uid_seq,
    {
        let b = *block_uid;
        let ghost orig = self.updates@;
        let mut kept: Vec<AssetUpdate> = Vec::new();
        let mut deleted: Vec<DeletedAsset> = Vec::new();
        while self.updates.len() > 0
            invariant
                self.origins == old(self).origins,
                self.uid_seq == old(self).uid_seq,
                kept_updates(orig, b) =~= kept@ + kept_updates(self.updates@, b),
                deleted_assets(orig, b) =~= deleted@ + deleted_assets(self.updates@, b),
            decreases self.updates@.len(),
        {
            let ghost rest = self.updates@;
            let r = self.updates.remove(0);
            assert(self.updates@ =~= rest.skip(1));
            if r.block_uid > b {
                deleted.push(DeletedAsset { uid: r.uid, id: r.asset_id });
                assert(deleted_assets(rest, b) =~= seq![
                    DeletedAsset { uid: r.uid, id: r.asset_id },
                ] + deleted_assets(rest.skip(1), b));
            } else {
                kept.push(r);
                assert(kept_updates(rest, b) =~= seq![r] + kept_updates(rest.skip(1), b));
            }
        }
        assert(kept_updates(self.updates@, b) =~= Seq::empty());
        assert(deleted_assets(self.updates@, b) =~= Seq::empty());
        assert(kept@ =~= kept_updates(orig, b));
        assert(deleted@ =~= deleted_assets(orig, b));
        self.updates = kept;
        deleted
    }

    /// The uids of every version owned by a block above `block_uid`, in
    /// table order; drives the rest of the rollback bookkeeping.
    pub fn assets_gt_block_uid(&self, block_uid: &i64) -> (uids: Vec<i64>)
        ensures
            uids@ == uids_above(self.updates@, *block_uid),
    {
        let b = *block_uid;
        let mut out: Vec<i64> = Vec::new();
        let mut i: usize = 0;
        assert(self.updates@.skip(0) =~= self.updates@);
        while i < self.updates.len()
            invariant
                0 <= i <= self.updates@.len(),
                uids_above(self.updates@, b) =~= out@ + uids_above(
                    self.updates@.skip(i as int),
                    b,
                ),
            decreases self.updates@.len() - i,
        {
            let ghost rest = self.updates@.skip(i as int);
            assert(rest[0] == self.updates@[i as int]);
            assert(rest.skip(1) =~= self.updates@.skip(i as int + 1));
            let r = &self.updates[i];
            if r.block_uid > b {
                out.push(r.uid);
            }
            i += 1;
        }
        assert(uids_above(self.updates@.skip(self.updates@.len() as int), b) =~= Seq::empty());
        assert(out@ =~= uids_above(self.updates@, b));
        out
    }
}

/// First override for `asset_id` in `ovs`, scanning in order.
fn find_override_exec(ovs: &Vec<AssetOverride>, asset_id: &String) -> (r: Option<i64>)
    ensures
        r == find_override(ovs@, asset_id@),
{
    let mut i: usize = 0;
    let mut res: Option<i64> = None;
    assert(ovs@.skip(0) =~= ovs@);
    while i < ovs.len()
        invariant
            0 <= i <= ovs@.len(),
            match res {
                Some(v) => find_override(ovs@, asset_id@) == Some(v),
                None => find_override(ovs@, asset_id@) == find_override(
                    ovs@.skip(i as int),
                    asset_id@,
                ),
            },
        decreases ovs@.len() - i,
    {
        if res.is_none() {
            let ghost rest = ovs@.skip(i as int);
            assert(rest[0] == ovs@[i as int]);
            assert(rest.skip(1) =~= ovs@.skip(i as int + 1));
            let ov = &ovs[i];
            if ov.id == *asset_id {
                res = Some(ov.superseded_by);
            }
        }
        i += 1;
    }
    if res.is_none() {
        assert(ovs@.skip(ovs@.len() as int) =~= Seq::<AssetOverride>::empty());
    }
    res
}

/// Whether `x` occurs in `v`.
fn contains_i64(v: &Vec<i64>, x: i64) -> (b: bool)
    ensures
        b == v@.contains(x),
{
    let mut i: usize = 0;
    let mut found = false;
    while i < v.len()
        invariant
            0 <= i <= v@.len(),
            found == exists|k: int| 0 <= k < i && v@[k] == x,
        decreases v@.len() - i,
    {
        if v[i] == x {
            found = true;
            assert(v@[i as int] == x);
        }
        i += 1;
    }
    assert(found == v@.contains(x));
    found
}

/// A `Some` result of [`find_override`] comes from some override in the
/// batch.
pub proof fn lemma_find_override_in(ovs: Seq<AssetOverride>, asset_id: Seq<char>)
    ensures
        match find_override(ovs, asset_id) {
            Some(v) => exists|k: int|
                0 <= k < ovs.len() && (#[trigger] ovs[k]).id@ == asset_id && ovs[k].superseded_by
                    == v,
            None => true,
        },
    decreases ovs.len(),
{
    if ovs.len() == 0 {
    } else if ovs[0].id@ == asset_id {
        assert(ovs[0].id@ == asset_id && ovs[0].superseded_by == ovs[0].superseded_by);
    } else {
        lemma_find_override_in(ovs.skip(1), asset_id);
        if find_override(ovs, asset_id) is Some {
            let v = find_override(ovs, asset_id)->0;
            let k = choose|k: int|
                0 <= k < ovs.skip(1).len() && (#[trigger] ovs.skip(1)[k]).id@ == asset_id
                    && ovs.skip(1)[k].superseded_by == v;
            assert(ovs[k + 1].id@ == asset_id && ovs[k + 1].superseded_by == v);
        }
    }
}

/// Closing versions cannot create a second open row: every row either keeps
/// its state or turns closed, so the open rows afterwards are a subset of
/// the open rows before, unchanged in their asset ids.
pub proof fn lemma_close_preserves_unique_open(table: Seq<AssetUpdate>, ovs: Seq<AssetOverride>)
    requires
        unique_open(table),
        forall|k: int| 0 <= k < ovs.len() ==> (#[trigger] ovs[k]).superseded_by != MAX_UID,
    ensures
        unique_open(spec_close(table, ovs)),
{
    let closed = spec_close(table, ovs);
    assert forall|i: int|
        0 <= i < closed.len() && is_open(#[trigger] closed[i]) implies is_open(table[i])
        && closed[i].asset_id@ == table[i].asset_id@ by {
        lemma_find_override_in(ovs, table[i].asset_id@);
    }
}

/// Inserting only open rows keeps the one-open-version invariant: a second
/// open row for an asset would share the conflict key of the first and is
/// skipped.
pub proof fn lemma_insert_open_preserves_unique_open(table: Seq<AssetUpdate>, rows: Seq<AssetUpdate>)
    requires
        unique_open(table),
        forall|i: int| 0 <= i < rows.len() ==> is_open(#[trigger] rows[i]),
    ensures
        unique_open(insert_dedup(table, rows)),
    decreases rows.len(),
{
    if rows.len() == 0 {
    } else {
        let r = rows[0];
        let key = r.conflict_key();
        assert(forall|i: int|
            0 <= i < rows.skip(1).len() ==> #[trigger] rows.skip(1)[i] == rows[i + 1]);
        if table_has_key(table, key) {
            lemma_insert_open_preserves_unique_open(table, rows.skip(1));
        } else {
            let pushed = table.push(r);
            assert forall|i: int, j: int|
                0 <= i < j < pushed.len() && is_open(#[trigger] pushed[i]) && is_open(
                    #[trigger] pushed[j],
                ) implies pushed[i].asset_id@ != pushed[j].asset_id@ by {
                if j == table.len() {
                    if pushed[i].asset_id@ == r.asset_id@ {
                        assert(table[i].conflict_key() == key);
                    }
                }
            }
            lemma_insert_open_preserves_unique_open(pushed, rows.skip(1));
        }
    }
}

/// Applying one version batch — close the superseded rows, then insert the
/// new open ones — preserves the one-open-version invariant.
pub proof fn lemma_version_batch_preserves_unique_open(
    table: Seq<AssetUpdate>,
    ovs: Seq<AssetOverride>,
    rows: Seq<AssetUpdate>,
)
    requires
        unique_open(table),
        forall|k: int| 0 <= k < ovs.len() ==> (#[trigger] ovs[k]).superseded_by != MAX_UID,
        forall|i: int| 0 <= i < rows.len() ==> is_open(#[trigger] rows[i]),
    ensures
        unique_open(insert_dedup(spec_close(table, ovs), rows)),
{
    lemma_close_preserves_unique_open(table, ovs);
    lemma_insert_open_preserves_unique_open(spec_close(table, ovs), rows);
}

/// The uids of the rows a rollback to `b` removes, in order.
pub open spec fn deleted_uids(table: Seq<AssetUpdate>, b: i64) -> Seq<i64> {
    deleted_assets(table, b).map_values(|d: DeletedAsset| d.uid)
}

/// The table after the full rollback repair: survivors of the rollback to
/// `b`, reopened against the removed uids.
pub open spec fn rollback_repaired(table: Seq<AssetUpdate>, b: i64) -> Seq<AssetUpdate> {
    spec_reopen(kept_updates(table, b), deleted_uids(table, b))
}

/// Whether some row removed by a rollback to `b` carried uid `sb`.
pub open spec fn successor_removed(table: Seq<AssetUpdate>, b: i64, sb: i64) -> bool {
    exists|j: int| 0 <= j < table.len() && (#[trigger] table[j]).block_uid > b && table[j].uid == sb
}

/// The uids returned by a rollback are exactly the uids of the rows it
/// removed.
pub proof fn lemma_deleted_uids(table: Seq<AssetUpdate>, b: i64, u: i64)
    ensures
        deleted_uids(table, b).contains(u) == successor_removed(table, b, u),
    decreases table.len(),
{
    let dels = deleted_uids(table, b);
    if table.len() == 0 {
    } else {
        lemma_deleted_uids(table.skip(1), b, u);
        let tail = deleted_uids(table.skip(1), b);
        assert(forall|i: int|
            0 <= i < table.skip(1).len() ==> #[trigger] table.skip(1)[i] == table[i + 1]);
        if table[0].block_uid > b {
            assert(dels =~= seq![table[0].uid] + tail);
            if dels.contains(u) {
                let k = choose|k: int| 0 <= k < dels.len() && dels[k] == u;
                if k == 0 {
                    assert(table[0].block_uid > b && table[0].uid == u);
                } else {
                    assert(tail[k - 1] == u);
                    assert(tail.contains(u));
                }
            }
            if successor_removed(table, b, u) {
                let j = choose|j: int|
                    0 <= j < table.len() && (#[trigger] table[j]).block_uid > b && table[j].uid
                        == u;
                if j == 0 {
                    assert(dels[0] == u);
                } else {
                    assert(table.skip(1)[j - 1].block_uid > b && table.skip(1)[j - 1].uid == u);
                    assert(successor_removed(table.skip(1), b, u));
                    let k = choose|k: int| 0 <= k < tail.len() && tail[k] == u;
                    assert(dels[k + 1] == u);
                }
            }
        } else {
            assert(dels =~= tail);
            if successor_removed(table, b, u) {
                let j = choose|j: int|
                    0 <= j < table.len() && (#[trigger] table[j]).block_uid > b && table[j].uid
                        == u;
                assert(j != 0);
                assert(table.skip(1)[j - 1].block_uid > b && table.skip(1)[j - 1].uid == u);
                assert(successor_removed(table.skip(1), b, u));
            }
            if tail.contains(u) {
                assert(successor_removed(table.skip(1), b, u));
                let j = choose|j: int|
                    0 <= j < table.skip(1).len() && (#[trigger] table.skip(1)[j]).block_uid > b
                        && table.skip(1)[j].uid == u;
                assert(table[j + 1].block_uid > b && table[j + 1].uid == u);
            }
        }
    }
}

/// Rollback repair is exact: rolling back to `b` and reopening against the
/// deleted uids leaves every surviving row open precisely when its successor
/// was among the removed rows, and touches nothing else in it.
pub proof fn lemma_rollback_reopen_exact(table: Seq<AssetUpdate>, b: i64)
    ensures
        rollback_repaired(table, b).len() == kept_updates(table, b).len(),
        forall|i: int|
            0 <= i < kept_updates(table, b).len() ==> #[trigger] rollback_repaired(table, b)[i]
                == if successor_removed(table, b, kept_updates(table, b)[i].superseded_by) {
                with_superseded_by(kept_updates(table, b)[i], MAX_UID)
            } else {
                kept_updates(table, b)[i]
            },
{
    let kept = kept_updates(table, b);
    let repaired = rollback_repaired(table, b);
    assert forall|i: int| 0 <= i < kept.len() implies #[trigger] repaired[i] == if
        successor_removed(table, b, kept[i].superseded_by) {
        with_superseded_by(kept[i], MAX_UID)
    } else {
        kept[i]
    } by {
        lemma_deleted_uids(table, b, kept[i].superseded_by);
    }
}

/// Every row surviving a rollback to `b` is owned by a block at or below
/// `b`.
proof fn lemma_kept_le(table: Seq<AssetUpdate>, b: i64)
    ensures
        forall|i: int|
            0 <= i < kept_updates(table, b).len() ==> (#[trigger] kept_updates(table, b)[i]).block_uid
                <= b,
    decreases table.len(),
{
    if table.len() != 0 {
        lemma_kept_le(table.skip(1), b);
        if table[0].block_uid > b {
            assert(kept_updates(table, b) =~= kept_updates(table.skip(1), b));
        } else {
            assert(forall|i: int|
                0 <= i < kept_updates(table.skip(1), b).len() ==> #[trigger] kept_updates(
                    table,
                    b,
                )[i + 1] == kept_updates(table.skip(1), b)[i]);
        }
    }
}

/// Every surviving row comes from the table.
proof fn lemma_kept_mem(table: Seq<AssetUpdate>, b: i64, i: int)
    requires
        0 <= i < kept_updates(table, b).len(),
    ensures
        exists|j: int| 0 <= j < table.len() && #[trigger] table[j] == kept_updates(table, b)[i],
    decreases table.len(),
{
    if table.len() == 0 {
    } else if table[0].block_uid > b {
        assert(kept_updates(table, b) =~= kept_updates(table.skip(1), b));
        lemma_kept_mem(table.skip(1), b, i);
        let j = choose|j: int|
            0 <= j < table.skip(1).len() && #[trigger] table.skip(1)[j] == kept_updates(
                table.skip(1),
                b,
            )[i];
        assert(table[j + 1] == kept_updates(table, b)[i]);
    } else {
        if i == 0 {
            assert(table[0] == kept_updates(table, b)[0]);
        } else {
            lemma_kept_mem(table.skip(1), b, i - 1);
            let j = choose|j: int|
                0 <= j < table.skip(1).len() && #[trigger] table.skip(1)[j] == kept_updates(
                    table.skip(1),
                    b,
                )[i - 1];
            assert(kept_updates(table, b)[i] == kept_updates(table.skip(1), b)[i - 1]);
            assert(table[j + 1] == kept_updates(table, b)[i]);
        }
    }
}

/// Two surviving rows at different positions come from two table rows in
/// the same order.
proof fn lemma_kept_pair(table: Seq<AssetUpdate>, b: i64, i1: int, i2: int)
    requires
        0 <= i1 < i2 < kept_updates(table, b).len(),
    ensures
        exists|j1: int, j2: int|
            0 <= j1 < j2 < table.len() && #[trigger] table[j1] == kept_updates(table, b)[i1]
                && #[trigger] table[j2] == kept_updates(table, b)[i2],
    decreases table.len(),
{
    if table.len() == 0 {
    } else if table[0].block_uid > b {
        assert(kept_updates(table, b) =~= kept_updates(table.skip(1), b));
        lemma_kept_pair(table.skip(1), b, i1, i2);
        let (j1, j2) = choose|j1: int, j2: int|
            0 <= j1 < j2 < table.skip(1).len() && #[trigger] table.skip(1)[j1] == kept_updates(
                table.skip(1),
                b,
            )[i1] && #[trigger] table.skip(1)[j2] == kept_updates(table.skip(1), b)[i2];
        assert(table[j1 + 1] == kept_updates(table, b)[i1] && table[j2 + 1] == kept_updates(
            table,
            b,
        )[i2]);
    } else {
        assert(forall|i: int|
            0 <= i < kept_updates(table.skip(1), b).len() ==> #[trigger] kept_updates(table, b)[i
                + 1] == kept_updates(table.skip(1), b)[i]);
        if i1 == 0 {
            lemma_kept_mem(table.skip(1), b, i2 - 1);
            let j = choose|j: int|
                0 <= j < table.skip(1).len() && #[trigger] table.skip(1)[j] == kept_updates(
                    table.skip(1),
                    b,
                )[i2 - 1];
            assert(table[0] == kept_updates(table, b)[0] && table[j + 1] == kept_updates(
                table,
                b,
            )[i2]);
        } else {
            lemma_kept_pair(table.skip(1), b, i1 - 1, i2 - 1);
            let (j1, j2) = choose|j1: int, j2: int|
                0 <= j1 < j2 < table.skip(1).len() && #[trigger] table.skip(1)[j1] == kept_updates(
                    table.skip(1),
                    b,
                )[i1 - 1] && #[trigger] table.skip(1)[j2] == kept_updates(table.skip(1), b)[i2 - 1];
            assert(table[j1 + 1] == kept_updates(table, b)[i1] && table[j2 + 1] == kept_updates(
                table,
                b,
            )[i2]);
        }
    }
}

/// A well-formed supersession table: one open version per asset, globally
/// unique uids below the sentinel, every closed row pointing forward to a
/// same-asset successor at the same or a later block, and no two closed
/// rows sharing a successor.
pub open spec fn chain_wf(table: Seq<AssetUpdate>) -> bool {
    &&& unique_open(table)
    &&& forall|i: int, j: int|
        0 <= i < j < table.len() ==> (#[trigger] table[i]).uid != (#[trigger] table[j]).uid
    &&& forall|i: int| 0 <= i < table.len() ==> (#[trigger] table[i]).uid < MAX_UID
    &&& forall|i: int|
        0 <= i < table.len() && !is_open(#[trigger] table[i]) ==> exists|m: int|
            0 <= m < table.len() && (#[trigger] table[m]).uid == table[i].superseded_by
                && table[m].asset_id@ == table[i].asset_id@ && table[m].block_uid
                >= table[i].block_uid && table[m].uid > table[i].uid
    &&& forall|i: int, j: int|
        0 <= i < table.len() && 0 <= j < table.len() && i != j && !is_open(#[trigger] table[i])
            && !is_open(#[trigger] table[j]) ==> table[i].superseded_by != table[j].superseded_by
}

/// Above any removed row of an asset stands an open removed row of the
/// same asset: climbing the supersession chain from a removed row stays
/// among removed rows and ends open.
proof fn lemma_open_above(table: Seq<AssetUpdate>, b: i64, j: int)
    requires
        chain_wf(table),
        0 <= j < table.len(),
        table[j].block_uid > b,
    ensures
        exists|m: int|
            0 <= m < table.len() && is_open(#[trigger] table[m]) && table[m].asset_id@
                == table[j].asset_id@ && table[m].block_uid > b,
    decreases MAX_UID - table[j].uid,
{
    if is_open(table[j]) {
        assert(0 <= j < table.len() && is_open(table[j]) && table[j].asset_id@
            == table[j].asset_id@ && table[j].block_uid > b);
    } else {
        let m = choose|m: int|
            0 <= m < table.len() && (#[trigger] table[m]).uid == table[j].superseded_by
                && table[m].asset_id@ == table[j].asset_id@ && table[m].block_uid
                >= table[j].block_uid && table[m].uid > table[j].uid;
        lemma_open_above(table, b, m);
    }
}

/// No two surviving closed rows of one asset both point into the removed
/// set: counting successors, a second one would force a second open
/// removed version of the asset.
proof fn lemma_one_boundary_per_asset(table: Seq<AssetUpdate>, b: i64, j1: int, j2: int)
    requires
        chain_wf(table),
        0 <= j1 < j2 < table.len(),
        !is_open(table[j1]),
        !is_open(table[j2]),
        table[j1].asset_id@ == table[j2].asset_id@,
        table[j1].block_uid <= b,
        table[j2].block_uid <= b,
        successor_removed(table, b, table[j1].superseded_by),
    ensures
        !successor_removed(table, b, table[j2].superseded_by),
{
    broadcast use vstd::set_lib::lemma_set_subset_finite;

    if successor_removed(table, b, table[j2].superseded_by) {
        let n = table.len() as int;
        let asset = table[j1].asset_id@;
        let da = Set::new(
            |j: int| 0 <= j < n && table[j].block_uid > b && table[j].asset_id@ == asset,
        );
        let closed_da = Set::new(|j: int| da.contains(j) && !is_open(table[j]));
        let open_da = Set::new(|j: int| da.contains(j) && is_open(table[j]));
        vstd::set_lib::lemma_int_range(0, n);
        assert(da.subset_of(vstd::set_lib::set_int_range(0, n)));
        vstd::set_lib::lemma_len_subset(da, vstd::set_lib::set_int_range(0, n));
        assert(closed_da.subset_of(da));
        vstd::set_lib::lemma_len_subset(closed_da, da);
        assert(open_da.subset_of(da));
        vstd::set_lib::lemma_len_subset(open_da, da);
        assert(!da.contains(j1));
        assert(!da.contains(j2));
        let with_one = closed_da.insert(j1);
        let sources = with_one.insert(j2);
        assert(with_one.len() == closed_da.len() + 1);
        assert(!with_one.contains(j2));
        assert(sources.len() == closed_da.len() + 2);
        let f = |j: int| table[j].superseded_by as int;
        let uid_of = |j: int| table[j].uid as int;
        assert forall|a1: int, a2: int|
            sources.contains(a1) && sources.contains(a2) && #[trigger] f(a1) == #[trigger] f(
                a2,
            ) implies a1 == a2 by {
            if a1 != a2 {
                assert(!is_open(table[a1]) && !is_open(table[a2]));
                assert(table[a1].superseded_by != table[a2].superseded_by);
            }
        }
        assert forall|a1: int, a2: int|
            da.contains(a1) && da.contains(a2) && #[trigger] uid_of(a1) == #[trigger] uid_of(
                a2,
            ) implies a1 == a2 by {
            if a1 != a2 {
                if a1 < a2 {
                    assert(table[a1].uid != table[a2].uid);
                } else {
                    assert(table[a2].uid != table[a1].uid);
                }
            }
        }
        assert forall|u: int| sources.map(f).contains(u) implies da.map(uid_of).contains(u) by {
            let j = choose|j: int| sources.contains(j) && #[trigger] f(j) == u;
            assert(!is_open(table[j]));
            let m = choose|m: int|
                0 <= m < table.len() && (#[trigger] table[m]).uid == table[j].superseded_by
                    && table[m].asset_id@ == table[j].asset_id@ && table[m].block_uid
                    >= table[j].block_uid && table[m].uid > table[j].uid;
            if closed_da.contains(j) {
                assert(table[m].block_uid > b);
            } else {
                let jj = if j == j1 {
                    j1
                } else {
                    j2
                };
                let r = choose|r: int|
                    0 <= r < table.len() && (#[trigger] table[r]).block_uid > b && table[r].uid
                        == table[jj].superseded_by;
                if r != m {
                    if r < m {
                        assert(table[r].uid != table[m].uid);
                    } else {
                        assert(table[m].uid != table[r].uid);
                    }
                }
                assert(table[m].block_uid > b);
            }
            assert(da.contains(m));
            assert(uid_of(m) == u);
        }
        vstd::set_lib::lemma_map_size(sources, sources.map(f), f);
        vstd::set_lib::lemma_map_size(da, da.map(uid_of), uid_of);
        vstd::set_lib::lemma_len_subset(sources.map(f), da.map(uid_of));
        assert(da.subset_of(closed_da.union(open_da)));
        vstd::set_lib::lemma_len_union(closed_da, open_da);
        vstd::set_lib::lemma_len_subset(da, closed_da.union(open_da));
        assert(open_da.len() >= 2);
        assert(!open_da.is_empty()) by {
            if open_da.is_empty() {
                assert(open_da =~= Set::<int>::empty());
            }
        }
        let m1 = open_da.choose();
        assert(open_da.contains(m1));
        let rest = open_da.remove(m1);
        assert(rest.len() == open_da.len() - 1);
        assert(!rest.is_empty()) by {
            if rest.is_empty() {
                assert(rest =~= Set::<int>::empty());
            }
        }
        let m2 = rest.choose();
        assert(rest.contains(m2));
        assert(m2 != m1);
        if m1 < m2 {
            assert(table[m1].asset_id@ != table[m2].asset_id@);
        } else {
            assert(table[m2].asset_id@ != table[m1].asset_id@);
        }
    }
}

/// The one-open-version invariant survives a rollback with its repair: on a
/// well-formed table, rolling back to `b` and reopening against the removed
/// uids leaves at most one open version per asset.
pub proof fn lemma_rollback_repair_restores_unique_open(table: Seq<AssetUpdate>, b: i64)
    requires
        chain_wf(table),
    ensures
        unique_open(rollback_repaired(table, b)),
{
    let kept = kept_updates(table, b);
    let repaired = rollback_repaired(table, b);
    lemma_rollback_reopen_exact(table, b);
    lemma_kept_le(table, b);
    assert forall|i1: int, i2: int|
        0 <= i1 < i2 < repaired.len() && is_open(#[trigger] repaired[i1]) && is_open(
            #[trigger] repaired[i2],
        ) implies repaired[i1].asset_id@ != repaired[i2].asset_id@ by {
        if repaired[i1].asset_id@ == repaired[i2].asset_id@ {
            lemma_kept_pair(table, b, i1, i2);
            let (j1, j2) = choose|j1: int, j2: int|
                0 <= j1 < j2 < table.len() && #[trigger] table[j1] == kept_updates(table, b)[i1]
                    && #[trigger] table[j2] == kept_updates(table, b)[i2];
            let x = table[j1];
            let y = table[j2];
            assert(repaired[i1].asset_id@ == x.asset_id@);
            assert(repaired[i2].asset_id@ == y.asset_id@);
            if is_open(x) && is_open(y) {
                assert(x.asset_id@ != y.asset_id@);
            } else if is_open(x) {
                assert(successor_removed(table, b, y.superseded_by));
                let jy = choose|r: int|
                    0 <= r < table.len() && (#[trigger] table[r]).block_uid > b && table[r].uid
                        == y.superseded_by;
                let m = choose|m: int|
                    0 <= m < table.len() && (#[trigger] table[m]).uid == y.superseded_by
                        && table[m].asset_id@ == y.asset_id@ && table[m].block_uid >= y.block_uid
                        && table[m].uid > y.uid;
                if m != jy {
                    if m < jy {
                        assert(table[m].uid != table[jy].uid);
                    } else {
                        assert(table[jy].uid != table[m].uid);
                    }
                }
                lemma_open_above(table, b, jy);
                let o = choose|o: int|
                    0 <= o < table.len() && is_open(#[trigger] table[o]) && table[o].asset_id@
                        == table[jy].asset_id@ && table[o].block_uid > b;
                assert(o != j1);
                if j1 < o {
                    assert(table[j1].asset_id@ != table[o].asset_id@);
                } else {
                    assert(table[o].asset_id@ != table[j1].asset_id@);
                }
            } else if is_open(y) {
                assert(successor_removed(table, b, x.superseded_by));
                let jx = choose|r: int|
                    0 <= r < table.len() && (#[trigger] table[r]).block_uid > b && table[r].uid
                        == x.superseded_by;
                let m = choose|m: int|
                    0 <= m < table.len() && (#[trigger] table[m]).uid == x.superseded_by
                        && table[m].asset_id@ == x.asset_id@ && table[m].block_uid >= x.block_uid
                        && table[m].uid > x.uid;
                if m != jx {
                    if m < jx {
                        assert(table[m].uid != table[jx].uid);
                    } else {
                        assert(table[jx].uid != table[m].uid);
                    }
                }
                lemma_open_above(table, b, jx);
                let o = choose|o: int|
                    0 <= o < table.len() && is_open(#[trigger] table[o]) && table[o].asset_id@
                        == table[jx].asset_id@ && table[o].block_uid > b;
                assert(o != j2);
                if j2 < o {
                    assert(table[j2].asset_id@ != table[o].asset_id@);
                } else {
                    assert(table[o].asset_id@ != table[j2].asset_id@);
                }
            } else {
                assert(successor_removed(table, b, x.superseded_by));
                assert(successor_removed(table, b, y.superseded_by));
                lemma_one_boundary_per_asset(table, b, j1, j2);
            }
        }
    }
}

/// Replaying a batch of supersession edits changes nothing: a row the
/// first pass closed stays closed, and an edit that left a row open leaves
/// it the same the second time.
pub proof fn lemma_close_idempotent(table: Seq<AssetUpdate>, ovs: Seq<AssetOverride>)
    ensures
        spec_close(spec_close(table, ovs), ovs) == spec_close(table, ovs),
{
    let once = spec_close(table, ovs);
    assert forall|i: int| 0 <= i < once.len() implies #[trigger] spec_close(once, ovs)[i]
        == once[i] by {
        assert(once[i] == close_row(table[i], ovs));
        assert(spec_close(once, ovs)[i] == close_row(close_row(table[i], ovs), ovs));
    }
    assert(spec_close(once, ovs) =~= once);
}

/// Replaying a reopening changes nothing, as long as the sentinel itself is
/// not among the removed uids — and no stored row ever carries it as a uid.
pub proof fn lemma_reopen_idempotent(table: Seq<AssetUpdate>, uids: Seq<i64>)
    requires
        !uids.contains(MAX_UID),
    ensures
        spec_reopen(spec_reopen(table, uids), uids) == spec_reopen(table, uids),
{
    let once = spec_reopen(table, uids);
    assert forall|i: int| 0 <= i < once.len() implies #[trigger] spec_reopen(once, uids)[i]
        == once[i] by {
        assert(once[i] == reopen_row(table[i], uids));
        assert(spec_reopen(once, uids)[i] == reopen_row(reopen_row(table[i], uids), uids));
    }
    assert(spec_reopen(once, uids) =~= once);
}

/// Replaying a block-reference repointing changes nothing.
pub proof fn lemma_repoint_idempotent(table: Seq<AssetUpdate>, b: i64)
    ensures
        spec_repoint(spec_repoint(table, b), b) == spec_repoint(table, b),
{
    let once = spec_repoint(table, b);
    assert forall|i: int| 0 <= i < once.len() implies #[trigger] spec_repoint(once, b)[i]
        == once[i] by {
        assert(once[i] == repoint_row(table[i], b));
        assert(spec_repoint(once, b)[i] == repoint_row(repoint_row(table[i], b), b));
    }
    assert(spec_repoint(once, b) =~= once);
}

/// A rollback leaves nothing above its target, so replaying it removes
/// nothing more.
pub proof fn lemma_rollback_idempotent(table: Seq<AssetUpdate>, b: i64)
    ensures
        kept_updates(kept_updates(table, b), b) == kept_updates(table, b),
        deleted_assets(kept_updates(table, b), b) == Seq::<DeletedAsset>::empty(),
{
    lemma_kept_le(table, b);
    lemma_rollback_noop(kept_updates(table, b), b);
}

/// Rolling a table back to a block bound it already respects changes
/// nothing.
proof fn lemma_rollback_noop(s: Seq<AssetUpdate>, b: i64)
    requires
        forall|i: int| 0 <= i < s.len() ==> (#[trigger] s[i]).block_uid <= b,
    ensures
        kept_updates(s, b) == s,
        deleted_assets(s, b) == Seq::<DeletedAsset>::empty(),
    decreases s.len(),
{
    if s.len() == 0 {
        assert(kept_updates(s, b) =~= s);
    } else {
        assert(forall|i: int| 0 <= i < s.skip(1).len() ==> #[trigger] s.skip(1)[i] == s[i + 1]);
        lemma_rollback_noop(s.skip(1), b);
        assert(seq![s[0]] + s.skip(1) =~= s);
    }
}

} // verus!
