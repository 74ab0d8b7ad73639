//! The transaction record family: one row type per transaction shape,
//! plus the child rows of the combined shapes and the master id index.
//!
//! Every shape shares the envelope [`TxMeta`]; the combined shapes own
//! ordered child collections whose rows carry an explicit ordinal position,
//! so the original order is reconstructable from independent rows.

use vstd::prelude::*;

use crate::chunker::TableRow;

verus! {

/// The envelope common to every transaction shape.
#[derive(Debug)]
pub struct TxMeta {
    pub uid: i64,
    pub block_uid: i64,
    pub id: String,
    pub time_stamp: i64,
    pub sender: String,
}

impl Clone for TxMeta {
    fn clone(&self) -> (res: Self)
        ensures
            res == *self,
    {
        TxMeta {
            uid: self.uid,
            block_uid: self.block_uid,
            id: self.id.clone(),
            time_stamp: self.time_stamp,
            sender: self.sender.clone(),
        }
    }
}

/// One row of the master id index: a transaction's content id and its uid.
#[derive(Debug)]
pub struct TxIdUid {
    pub id: String,
    pub uid: i64,
}

impl Clone for TxIdUid {
    fn clone(&self) -> (res: Self)
        ensures
            res == *self,
    {
        TxIdUid { id: self.id.clone(), uid: self.uid }
    }
}

/// A transaction row that feeds the master id index.
pub trait TxRecord: TableRow {
    /// The content id the row is known by.
    spec fn rec_id(&self) -> Seq<char>;

    /// The surrogate key the row is stored under.
    spec fn rec_uid(&self) -> i64;

    /// The index row this transaction contributes.
    fn id_uid(&self) -> (r: TxIdUid)
        ensures
            r.id@ == self.rec_id(),
            r.uid == self.rec_uid();
}

/// A child row of a combined transaction: owned by a parent, ordered by an
/// explicit ordinal position.
pub trait ChildRow: TableRow {
    /// The uid of the owning transaction.
    spec fn parent_uid(&self) -> i64;

    /// The ordinal position within the owning transaction.
    spec fn position(&self) -> int;
}

/// Genesis transfer transaction row.
#[derive(Debug)]
pub struct Tx1 {
    pub meta: TxMeta,
    pub recipient: String,
    pub amount: i64,
}

impl Clone for Tx1 {
    fn clone(&self) -> (res: Self)
        ensures
            res == *self,
    {
        Tx1 {
            meta: self.meta.clone(),
            recipient: self.recipient.clone(),
            amount: self.amount,
        }
    }
}

impl TableRow for Tx1 {
    /// Parent rows conflict on their surrogate key alone.
    open spec fn conflict_key(&self) -> (int, int, Seq<char>) {
        (self.meta.uid as int, 0, Seq::empty())
    }

    fn same_key(&self, other: &Self) -> (b: bool) {
        self.meta.uid == other.meta.uid
    }
}

impl TxRecord for Tx1 {
    open spec fn rec_id(&self) -> Seq<char> {
        self.meta.id@
    }

    open spec fn rec_uid(&self) -> i64 {
        self.meta.uid
    }

    fn id_uid(&self) -> (r: TxIdUid) {
        TxIdUid { id: self.meta.id.clone(), uid: self.meta.uid }
    }
}

/// Payment transaction row.
#[derive(Debug)]
pub struct Tx2 {
    pub meta: TxMeta,
    pub recipient: String,
    pub amount: i64,
}

impl Clone for Tx2 {
    fn clone(&self) -> (res: Self)
        ensures
            res == *self,
    {
        Tx2 {
            meta: self.meta.clone(),
            recipient: self.recipient.clone(),
            amount: self.amount,
        }
    }
}

impl TableRow for Tx2 {
    /// Parent rows conflict on their surrogate key alone.
    open spec fn conflict_key(&self) -> (int, int, Seq<char>) {
        (self.meta.uid as int, 0, Seq::empty())
    }

    fn same_key(&self, other: &Self) -> (b: bool) {
        self.meta.uid == other.meta.uid
    }
}

impl TxRecord for Tx2 {
    open spec fn rec_id(&self) -> Seq<char> {
        self.meta.id@
    }

    open spec fn rec_uid(&self) -> i64 {
        self.meta.uid
    }

    fn id_uid(&self) -> (r: TxIdUid) {
        TxIdUid { id: self.meta.id.clone(), uid: self.meta.uid }
    }
}

/// Issue transaction row.
#[derive(Debug)]
pub struct Tx3 {
    pub meta: TxMeta,
    pub asset_id: String,
    pub asset_name: String,
    pub quantity: i64,
    pub decimals: i16,
    pub reissuable: bool,
}

impl Clone for Tx3 {
    fn clone(&self) -> (res: Self)
        ensures
            res == *self,
    {
        Tx3 {
            meta: self.meta.clone(),
            asset_id: self.asset_id.clone(),
            asset_name: self.asset_name.clone(),
            quantity: self.quantity,
            decimals: self.decimals,
            reissuable: self.reissuable,
        }
    }
}

impl TableRow for Tx3 {
    /// Parent rows conflict on their surrogate key alone.
    open spec fn conflict_key(&self) -> (int, int, Seq<char>) {
        (self.meta.uid as int, 0, Seq::empty())
    }

    fn same_key(&self, other: &Self) -> (b: bool) {
        self.meta.uid == other.meta.uid
    }
}

impl TxRecord for Tx3 {
    open spec fn rec_id(&self) -> Seq<char> {
        self.meta.id@
    }

    open spec fn rec_uid(&self) -> i64 {
        self.meta.uid
    }

    fn id_uid(&self) -> (r: TxIdUid) {
        TxIdUid { id: self.meta.id.clone(), uid: self.meta.uid }
    }
}

/// Transfer transaction row.
#[derive(Debug)]
pub struct Tx4 {
    pub meta: TxMeta,
    pub asset_id: String,
    pub recipient: String,
    pub amount: i64,
    pub fee_asset_id: String,
}

impl Clone for Tx4 {
    fn clone(&self) -> (res: Self)
        ensures
            res == *self,
    {
        Tx4 {
            meta: self.meta.clone(),
            asset_id: self.asset_id.clone(),
            recipient: self.recipient.clone(),
            amount: self.amount,
            fee_asset_id: self.fee_asset_id.clone(),
        }
    }
}

impl TableRow for Tx4 {
    /// Parent rows conflict on their surrogate key alone.
    open spec fn conflict_key(&self) -> (int, int, Seq<char>) {
        (self.meta.uid as int, 0, Seq::empty())
    }

    fn same_key(&self, other: &Self) -> (b: bool) {
        self.meta.uid == other.meta.uid
    }
}

impl TxRecord for Tx4 {
    open spec fn rec_id(&self) -> Seq<char> {
        self.meta.id@
    }

    open spec fn rec_uid(&self) -> i64 {
        self.meta.uid
    }

    fn id_uid(&self) -> (r: TxIdUid) {
        TxIdUid { id: self.meta.id.clone(), uid: self.meta.uid }
    }
}

/// Reissue transaction row.
#[derive(Debug)]
pub struct Tx5 {
    pub meta: TxMeta,
    pub asset_id: String,
    pub quantity: i64,
    pub reissuable: bool,
}

impl Clone for Tx5 {
    fn clone(&self) -> (res: Self)
        ensures
            res == *self,
    {
        Tx5 {
            meta: self.meta.clone(),
            asset_id: self.asset_id.clone(),
            quantity: self.quantity,
            reissuable: self.reissuable,
        }
    }
}

impl TableRow for Tx5 {
    /// Parent rows conflict on their surrogate key alone.
    open spec fn conflict_key(&self) -> (int, int, Seq<char>) {
        (self.meta.uid as int, 0, Seq::empty())
    }

    fn same_key(&self, other: &Self) -> (b: bool) {
        self.meta.uid == other.meta.uid
    }
}

impl TxRecord for Tx5 {
    open spec fn rec_id(&self) -> Seq<char> {
        self.meta.id@
    }

    open spec fn rec_uid(&self) -> i64 {
        self.meta.uid
    }

    fn id_uid(&self) -> (r: TxIdUid) {
        TxIdUid { id: self.meta.id.clone(), uid: self.meta.uid }
    }
}

/// Burn transaction row.
#[derive(Debug)]
pub struct Tx6 {
    pub meta: TxMeta,
    pub asset_id: String,
    pub amount: i64,
}

impl Clone for Tx6 {
    fn clone(&self) -> (res: Self)
        ensures
            res == *self,
    {
        Tx6 {
            meta: self.meta.clone(),
            asset_id: self.asset_id.clone(),
            amount: self.amount,
        }
    }
}

impl TableRow for Tx6 {
    /// Parent rows conflict on their surrogate key alone.
    open spec fn conflict_key(&self) -> (int, int, Seq<char>) {
        (self.meta.uid as int, 0, Seq::empty())
    }

    fn same_key(&self, other: &Self) -> (b: bool) {
        self.meta.uid == other.meta.uid
    }
}

impl TxRecord for Tx6 {
    open spec fn rec_id(&self) -> Seq<char> {
        self.meta.id@
    }

    open spec fn rec_uid(&self) -> i64 {
        self.meta.uid
    }

    fn id_uid(&self) -> (r: TxIdUid) {
        TxIdUid { id: self.meta.id.clone(), uid: self.meta.uid }
    }
}

/// Exchange transaction row.
#[derive(Debug)]
pub struct Tx7 {
    pub meta: TxMeta,
    pub order1_id: String,
    pub order2_id: String,
    pub amount: i64,
    pub price: i64,
}

impl Clone for Tx7 {
    fn clone(&self) -> (res: Self)
        ensures
            res == *self,
    {
        Tx7 {
            meta: self.meta.clone(),
            order1_id: self.order1_id.clone(),
            order2_id: self.order2_id.clone(),
            amount: self.amount,
            price: self.price,
        }
    }
}

impl TableRow for Tx7 {
    /// Parent rows conflict on their surrogate key alone.
    open spec fn conflict_key(&self) -> (int, int, Seq<char>) {
        (self.meta.uid as int, 0, Seq::empty())
    }

    fn same_key(&self, other: &Self) -> (b: bool) {
        self.meta.uid == other.meta.uid
    }
}

impl TxRecord for Tx7 {
    open spec fn rec_id(&self) -> Seq<char> {
        self.meta.id@
    }

    open spec fn rec_uid(&self) -> i64 {
        self.meta.uid
    }

    fn id_uid(&self) -> (r: TxIdUid) {
        TxIdUid { id: self.meta.id.clone(), uid: self.meta.uid }
    }
}

/// Lease transaction row.
#[derive(Debug)]
pub struct Tx8 {
    pub meta: TxMeta,
    pub recipient: String,
    pub amount: i64,
}

impl Clone for Tx8 {
    fn clone(&self) -> (res: Self)
        ensures
            res == *self,
    {
        Tx8 {
            meta: self.meta.clone(),
            recipient: self.recipient.clone(),
            amount: self.amount,
        }
    }
}

impl TableRow for Tx8 {
    /// Parent rows conflict on their surrogate key alone.
    open spec fn conflict_key(&self) -> (int, int, Seq<char>) {
        (self.meta.uid as int, 0, Seq::empty())
    }

    fn same_key(&self, other: &Self) -> (b: bool) {
        self.meta.uid == other.meta.uid
    }
}

impl TxRecord for Tx8 {
    open spec fn rec_id(&self) -> Seq<char> {
        self.meta.id@
    }

    open spec fn rec_uid(&self) -> i64 {
        self.meta.uid
    }

    fn id_uid(&self) -> (r: TxIdUid) {
        TxIdUid { id: self.meta.id.clone(), uid: self.meta.uid }
    }
}

/// Lease cancellation transaction row, before its lease reference is resolved.
#[derive(Debug)]
pub struct Tx9Partial {
    pub meta: TxMeta,
    pub lease_id: Option<String>,
}

impl Clone for Tx9Partial {
    fn clone(&self) -> (res: Self)
        ensures
            res == *self,
    {
        Tx9Partial {
            meta: self.meta.clone(),
            lease_id: self.lease_id.clone(),
        }
    }
}

/// Lease cancellation transaction row, its lease reference resolved where storage knows the lease.
#[derive(Debug)]
pub struct Tx9 {
    pub meta: TxMeta,
    pub lease_id: Option<String>,
    pub lease_tx_uid: Option<i64>,
}

impl Clone for Tx9 {
    fn clone(&self) -> (res: Self)
        ensures
            res == *self,
    {
        Tx9 {
            meta: self.meta.clone(),
            lease_id: self.lease_id.clone(),
            lease_tx_uid: self.lease_tx_uid,
        }
    }
}

impl TableRow for Tx9 {
    /// Parent rows conflict on their surrogate key alone.
    open spec fn conflict_key(&self) -> (int, int, Seq<char>) {
        (self.meta.uid as int, 0, Seq::empty())
    }

    fn same_key(&self, other: &Self) -> (b: bool) {
        self.meta.uid == other.meta.uid
    }
}

impl TxRecord for Tx9 {
    open spec fn rec_id(&self) -> Seq<char> {
        self.meta.id@
    }

    open spec fn rec_uid(&self) -> i64 {
        self.meta.uid
    }

    fn id_uid(&self) -> (r: TxIdUid) {
        TxIdUid { id: self.meta.id.clone(), uid: self.meta.uid }
    }
}

/// Alias creation transaction row.
#[derive(Debug)]
pub struct Tx10 {
    pub meta: TxMeta,
    pub alias: String,
}

impl Clone for Tx10 {
    fn clone(&self) -> (res: Self)
        ensures
            res == *self,
    {
        Tx10 {
            meta: self.meta.clone(),
            alias: self.alias.clone(),
        }
    }
}

impl TableRow for Tx10 {
    /// Parent rows conflict on their surrogate key alone.
    open spec fn conflict_key(&self) -> (int, int, Seq<char>) {
        (self.meta.uid as int, 0, Seq::empty())
    }

    fn same_key(&self, other: &Self) -> (b: bool) {
        self.meta.uid == other.meta.uid
    }
}

impl TxRecord for Tx10 {
    open spec fn rec_id(&self) -> Seq<char> {
        self.meta.id@
    }

    open spec fn rec_uid(&self) -> i64 {
        self.meta.uid
    }

    fn id_uid(&self) -> (r: TxIdUid) {
        TxIdUid { id: self.meta.id.clone(), uid: self.meta.uid }
    }
}

/// Mass transfer transaction row.
#[derive(Debug)]
pub struct Tx11 {
    pub meta: TxMeta,
    pub asset_id: String,
    pub attachment: String,
}

impl Clone for Tx11 {
    fn clone(&self) -> (res: Self)
        ensures
            res == *self,
    {
        Tx11 {
            meta: self.meta.clone(),
            asset_id: self.asset_id.clone(),
            attachment: self.attachment.clone(),
        }
    }
}

impl TableRow for Tx11 {
    /// Parent rows conflict on their surrogate key alone.
    open spec fn conflict_key(&self) -> (int, int, Seq<char>) {
        (self.meta.uid as int, 0, Seq::empty())
    }

    fn same_key(&self, other: &Self) -> (b: bool) {
        self.meta.uid == other.meta.uid
    }
}

impl TxRecord for Tx11 {
    open spec fn rec_id(&self) -> Seq<char> {
        self.meta.id@
    }

    open spec fn rec_uid(&self) -> i64 {
        self.meta.uid
    }

    fn id_uid(&self) -> (r: TxIdUid) {
        TxIdUid { id: self.meta.id.clone(), uid: self.meta.uid }
    }
}

/// Data transaction transaction row.
#[derive(Debug)]
pub struct Tx12 {
    pub meta: TxMeta,
}

impl Clone for Tx12 {
    fn clone(&self) -> (res: Self)
        ensures
            res == *self,
    {
        Tx12 {
            meta: self.meta.clone(),
        }
    }
}

impl TableRow for Tx12 {
    /// Parent rows conflict on their surrogate key alone.
    open spec fn conflict_key(&self) -> (int, int, Seq<char>) {
        (self.meta.uid as int, 0, Seq::empty())
    }

    fn same_key(&self, other: &Self) -> (b: bool) {
        self.meta.uid == other.meta.uid
    }
}

impl TxRecord for Tx12 {
    open spec fn rec_id(&self) -> Seq<char> {
        self.meta.id@
    }

    open spec fn rec_uid(&self) -> i64 {
        self.meta.uid
    }

    fn id_uid(&self) -> (r: TxIdUid) {
        TxIdUid { id: self.meta.id.clone(), uid: self.meta.uid }
    }
}

/// Script assignment transaction row.
#[derive(Debug)]
pub struct Tx13 {
    pub meta: TxMeta,
    pub script: String,
}

impl Clone for Tx13 {
    fn clone(&self) -> (res: Self)
        ensures
            res == *self,
    {
        Tx13 {
            meta: self.meta.clone(),
            script: self.script.clone(),
        }
    }
}

impl TableRow for Tx13 {
    /// Parent rows conflict on their surrogate key alone.
    open spec fn conflict_key(&self) -> (int, int, Seq<char>) {
        (self.meta.uid as int, 0, Seq::empty())
    }

    fn same_key(&self, other: &Self) -> (b: bool) {
        self.meta.uid == other.meta.uid
    }
}

impl TxRecord for Tx13 {
    open spec fn rec_id(&self) -> Seq<char> {
        self.meta.id@
    }

    open spec fn rec_uid(&self) -> i64 {
        self.meta.uid
    }

    fn id_uid(&self) -> (r: TxIdUid) {
        TxIdUid { id: self.meta.id.clone(), uid: self.meta.uid }
    }
}

/// Sponsorship transaction row.
#[derive(Debug)]
pub struct Tx14 {
    pub meta: TxMeta,
    pub asset_id: String,
    pub min_sponsored_asset_fee: Option<i64>,
}

impl Clone for Tx14 {
    fn clone(&self) -> (res: Self)
        ensures
            res == *self,
    {
        Tx14 {
            meta: self.meta.clone(),
            asset_id: self.asset_id.clone(),
            min_sponsored_asset_fee: self.min_sponsored_asset_fee,
        }
    }
}

impl TableRow for Tx14 {
    /// Parent rows conflict on their surrogate key alone.
    open spec fn conflict_key(&self) -> (int, int, Seq<char>) {
        (self.meta.uid as int, 0, Seq::empty())
    }

    fn same_key(&self, other: &Self) -> (b: bool) {
        self.meta.uid == other.meta.uid
    }
}

impl TxRecord for Tx14 {
    open spec fn rec_id(&self) -> Seq<char> {
        self.meta.id@
    }

    open spec fn rec_uid(&self) -> i64 {
        self.meta.uid
    }

    fn id_uid(&self) -> (r: TxIdUid) {
        TxIdUid { id: self.meta.id.clone(), uid: self.meta.uid }
    }
}

/// Asset script assignment transaction row.
#[derive(Debug)]
pub struct Tx15 {
    pub meta: TxMeta,
    pub asset_id: String,
    pub script: String,
}

impl Clone for Tx15 {
    fn clone(&self) -> (res: Self)
        ensures
            res == *self,
    {
        Tx15 {
            meta: self.meta.clone(),
            asset_id: self.asset_id.clone(),
            script: self.script.clone(),
        }
    }
}

impl TableRow for Tx15 {
    /// Parent rows conflict on their surrogate key alone.
    open spec fn conflict_key(&self) -> (int, int, Seq<char>) {
        (self.meta.uid as int, 0, Seq::empty())
    }

    fn same_key(&self, other: &Self) -> (b: bool) {
        self.meta.uid == other.meta.uid
    }
}

impl TxRecord for Tx15 {
    open spec fn rec_id(&self) -> Seq<char> {
        self.meta.id@
    }

    open spec fn rec_uid(&self) -> i64 {
        self.meta.uid
    }

    fn id_uid(&self) -> (r: TxIdUid) {
        TxIdUid { id: self.meta.id.clone(), uid: self.meta.uid }
    }
}

/// Script invocation transaction row.
#[derive(Debug)]
pub struct Tx16 {
    pub meta: TxMeta,
    pub dapp: String,
    pub function_name: String,
}

impl Clone for Tx16 {
    fn clone(&self) -> (res: Self)
        ensures
            res == *self,
    {
        Tx16 {
            meta: self.meta.clone(),
            dapp: self.dapp.clone(),
            function_name: self.function_name.clone(),
        }
    }
}

impl TableRow for Tx16 {
    /// Parent rows conflict on their surrogate key alone.
    open spec fn conflict_key(&self) -> (int, int, Seq<char>) {
        (self.meta.uid as int, 0, Seq::empty())
    }

    fn same_key(&self, other: &Self) -> (b: bool) {
        self.meta.uid == other.meta.uid
    }
}

impl TxRecord for Tx16 {
    open spec fn rec_id(&self) -> Seq<char> {
        self.meta.id@
    }

    open spec fn rec_uid(&self) -> i64 {
        self.meta.uid
    }

    fn id_uid(&self) -> (r: TxIdUid) {
        TxIdUid { id: self.meta.id.clone(), uid: self.meta.uid }
    }
}

/// Asset info update transaction row.
#[derive(Debug)]
pub struct Tx17 {
    pub meta: TxMeta,
    pub asset_id: String,
    pub asset_name: String,
    pub description: String,
}

impl Clone for Tx17 {
    fn clone(&self) -> (res: Self)
        ensures
            res == *self,
    {
        Tx17 {
            meta: self.meta.clone(),
            asset_id: self.asset_id.clone(),
            asset_name: self.asset_name.clone(),
            description: self.description.clone(),
        }
    }
}

impl TableRow for Tx17 {
    /// Parent rows conflict on their surrogate key alone.
    open spec fn conflict_key(&self) -> (int, int, Seq<char>) {
        (self.meta.uid as int, 0, Seq::empty())
    }

    fn same_key(&self, other: &Self) -> (b: bool) {
        self.meta.uid == other.meta.uid
    }
}

impl TxRecord for Tx17 {
    open spec fn rec_id(&self) -> Seq<char> {
        self.meta.id@
    }

    open spec fn rec_uid(&self) -> i64 {
        self.meta.uid
    }

    fn id_uid(&self) -> (r: TxIdUid) {
        TxIdUid { id: self.meta.id.clone(), uid: self.meta.uid }
    }
}

/// Ethereum-originated invocation transaction row.
#[derive(Debug)]
pub struct Tx18 {
    pub meta: TxMeta,
    pub payload: String,
    pub function_name: String,
}

impl Clone for Tx18 {
    fn clone(&self) -> (res: Self)
        ensures
            res == *self,
    {
        Tx18 {
            meta: self.meta.clone(),
            payload: self.payload.clone(),
            function_name: self.function_name.clone(),
        }
    }
}

impl TableRow for Tx18 {
    /// Parent rows conflict on their surrogate key alone.
    open spec fn conflict_key(&self) -> (int, int, Seq<char>) {
        (self.meta.uid as int, 0, Seq::empty())
    }

    fn same_key(&self, other: &Self) -> (b: bool) {
        self.meta.uid == other.meta.uid
    }
}

impl TxRecord for Tx18 {
    open spec fn rec_id(&self) -> Seq<char> {
        self.meta.id@
    }

    open spec fn rec_uid(&self) -> i64 {
        self.meta.uid
    }

    fn id_uid(&self) -> (r: TxIdUid) {
        TxIdUid { id: self.meta.id.clone(), uid: self.meta.uid }
    }
}

/// One transfer of a mass transfer, stored as an independent row.
#[derive(Debug)]
pub struct Tx11Transfers {
    pub tx_uid: i64,
    pub recipient: String,
    pub amount: i64,
    pub position_in_tx: i16,
}

impl Clone for Tx11Transfers {
    fn clone(&self) -> (res: Self)
        ensures
            res == *self,
    {
        Tx11Transfers {
            tx_uid: self.tx_uid,
            recipient: self.recipient.clone(),
            amount: self.amount,
            position_in_tx: self.position_in_tx,
        }
    }
}

impl TableRow for Tx11Transfers {
    /// Child rows conflict on the owning uid and the ordinal position.
    open spec fn conflict_key(&self) -> (int, int, Seq<char>) {
        (self.tx_uid as int, self.position_in_tx as int, Seq::empty())
    }

    fn same_key(&self, other: &Self) -> (b: bool) {
        self.tx_uid == other.tx_uid && self.position_in_tx == other.position_in_tx
    }
}

impl ChildRow for Tx11Transfers {
    open spec fn parent_uid(&self) -> i64 {
        self.tx_uid
    }

    open spec fn position(&self) -> int {
        self.position_in_tx as int
    }
}

/// One entry of a data transaction, stored as an independent row.
#[derive(Debug)]
pub struct Tx12Data {
    pub tx_uid: i64,
    pub data_key: String,
    pub data_type: String,
    pub data_value: String,
    pub position_in_tx: i16,
}

impl Clone for Tx12Data {
    fn clone(&self) -> (res: Self)
        ensures
            res == *self,
    {
        Tx12Data {
            tx_uid: self.tx_uid,
            data_key: self.data_key.clone(),
            data_type: self.data_type.clone(),
            data_value: self.data_value.clone(),
            position_in_tx: self.position_in_tx,
        }
    }
}

impl TableRow for Tx12Data {
    /// Child rows conflict on the owning uid and the ordinal position.
    open spec fn conflict_key(&self) -> (int, int, Seq<char>) {
        (self.tx_uid as int, self.position_in_tx as int, Seq::empty())
    }

    fn same_key(&self, other: &Self) -> (b: bool) {
        self.tx_uid == other.tx_uid && self.position_in_tx == other.position_in_tx
    }
}

impl ChildRow for Tx12Data {
    open spec fn parent_uid(&self) -> i64 {
        self.tx_uid
    }

    open spec fn position(&self) -> int {
        self.position_in_tx as int
    }
}

/// One call argument of a script invocation, stored as an independent row.
#[derive(Debug)]
pub struct Tx16Args {
    pub tx_uid: i64,
    pub arg_type: String,
    pub arg_value: String,
    pub position_in_args: i16,
}

impl Clone for Tx16Args {
    fn clone(&self) -> (res: Self)
        ensures
            res == *self,
    {
        Tx16Args {
            tx_uid: self.tx_uid,
            arg_type: self.arg_type.clone(),
            arg_value: self.arg_value.clone(),
            position_in_args: self.position_in_args,
        }
    }
}

impl TableRow for Tx16Args {
    /// Child rows conflict on the owning uid and the ordinal position.
    open spec fn conflict_key(&self) -> (int, int, Seq<char>) {
        (self.tx_uid as int, self.position_in_args as int, Seq::empty())
    }

    fn same_key(&self, other: &Self) -> (b: bool) {
        self.tx_uid == other.tx_uid && self.position_in_args == other.position_in_args
    }
}

impl ChildRow for Tx16Args {
    open spec fn parent_uid(&self) -> i64 {
        self.tx_uid
    }

    open spec fn position(&self) -> int {
        self.position_in_args as int
    }
}

/// One attached payment of a script invocation, stored as an independent row.
#[derive(Debug)]
pub struct Tx16Payment {
    pub tx_uid: i64,
    pub amount: i64,
    pub asset_id: Option<String>,
    pub position_in_payment: i16,
}

impl Clone for Tx16Payment {
    fn clone(&self) -> (res: Self)
        ensures
            res == *self,
    {
        Tx16Payment {
            tx_uid: self.tx_uid,
            amount: self.amount,
            asset_id: self.asset_id.clone(),
            position_in_payment: self.position_in_payment,
        }
    }
}

impl TableRow for Tx16Payment {
    /// Child rows conflict on the owning uid and the ordinal position.
    open spec fn conflict_key(&self) -> (int, int, Seq<char>) {
        (self.tx_uid as int, self.position_in_payment as int, Seq::empty())
    }

    fn same_key(&self, other: &Self) -> (b: bool) {
        self.tx_uid == other.tx_uid && self.position_in_payment == other.position_in_payment
    }
}

impl ChildRow for Tx16Payment {
    open spec fn parent_uid(&self) -> i64 {
        self.tx_uid
    }

    open spec fn position(&self) -> int {
        self.position_in_payment as int
    }
}

/// One call argument of an Ethereum-originated invocation, stored as an independent row.
#[derive(Debug)]
pub struct Tx18Args {
    pub tx_uid: i64,
    pub arg_type: String,
    pub arg_value: String,
    pub position_in_args: i16,
}

impl Clone for Tx18Args {
    fn clone(&self) -> (res: Self)
        ensures
            res == *self,
    {
        Tx18Args {
            tx_uid: self.tx_uid,
            arg_type: self.arg_type.clone(),
            arg_value: self.arg_value.clone(),
            position_in_args: self.position_in_args,
        }
    }
}

impl TableRow for Tx18Args {
    /// Child rows conflict on the owning uid and the ordinal position.
    open spec fn conflict_key(&self) -> (int, int, Seq<char>) {
        (self.tx_uid as int, self.position_in_args as int, Seq::empty())
    }

    fn same_key(&self, other: &Self) -> (b: bool) {
        self.tx_uid == other.tx_uid && self.position_in_args == other.position_in_args
    }
}

impl ChildRow for Tx18Args {
    open spec fn parent_uid(&self) -> i64 {
        self.tx_uid
    }

    open spec fn position(&self) -> int {
        self.position_in_args as int
    }
}

/// One attached payment of an Ethereum-originated invocation, stored as an independent row.
#[derive(Debug)]
pub struct Tx18Payment {
    pub tx_uid: i64,
    pub amount: i64,
    pub asset_id: Option<String>,
    pub position_in_payment: i16,
}

impl Clone for Tx18Payment {
    fn clone(&self) -> (res: Self)
        ensures
            res == *self,
    {
        Tx18Payment {
            tx_uid: self.tx_uid,
            amount: self.amount,
            asset_id: self.asset_id.clone(),
            position_in_payment: self.position_in_payment,
        }
    }
}

impl TableRow for Tx18Payment {
    /// Child rows conflict on the owning uid and the ordinal position.
    open spec fn conflict_key(&self) -> (int, int, Seq<char>) {
        (self.tx_uid as int, self.position_in_payment as int, Seq::empty())
    }

    fn same_key(&self, other: &Self) -> (b: bool) {
        self.tx_uid == other.tx_uid && self.position_in_payment == other.position_in_payment
    }
}

impl ChildRow for Tx18Payment {
    open spec fn parent_uid(&self) -> i64 {
        self.tx_uid
    }

    open spec fn position(&self) -> int {
        self.position_in_payment as int
    }
}

/// Mass transfer with its ordered child rows, as the decoder hands it over.
#[derive(Debug)]
pub struct Tx11Combined {
    pub tx: Tx11,
    pub transfers: Vec<Tx11Transfers>,
}

/// Data transaction with its ordered child rows, as the decoder hands it over.
#[derive(Debug)]
pub struct Tx12Combined {
    pub tx: Tx12,
    pub data: Vec<Tx12Data>,
}

/// Script invocation with its ordered child rows, as the decoder hands it over.
#[derive(Debug)]
pub struct Tx16Combined {
    pub tx: Tx16,
    pub args: Vec<Tx16Args>,
    pub payments: Vec<Tx16Payment>,
}

/// Ethereum-originated invocation with its ordered child rows, as the decoder hands it over.
#[derive(Debug)]
pub struct Tx18Combined {
    pub tx: Tx18,
    pub args: Vec<Tx18Args>,
    pub payments: Vec<Tx18Payment>,
}

} // verus!
