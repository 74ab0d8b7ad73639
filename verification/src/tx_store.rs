//! Transaction fan-out writer: one table per transaction shape, a master
//! id index over all of them, and the lease-reference resolution step.
//!
//! Flat shapes are one row each; combined shapes split into a parent row
//! and ordered child rows, parents written before children; the lease
//! cancellation shape first resolves its textual lease reference against
//! the master index, and an unresolved reference is stored as absent, not
//! an error.

use vstd::prelude::*;

use crate::chunker::{
    MAX_CHUNKABLE_COLUMNS, TableRow, chunk_size, chunked, contains_key_of, insert_dedup,
    inserted_rows, lemma_chunk_size_positive, lemma_insert_dedup_all_new,
    lemma_insert_dedup_append, lemma_insert_dedup_single, lemma_inserted_rows_append,
    lemma_inserted_single, spec_chunk_count, spec_chunk_size, table_has_key,
};
use crate::txs::{
    ChildRow, Tx1, Tx2, Tx3, Tx4, Tx5, Tx6, Tx7, Tx8, Tx9, Tx9Partial, Tx10, Tx11, Tx11Combined,
    Tx11Transfers, Tx12, Tx12Combined, Tx12Data, Tx13, Tx14, Tx15, Tx16, Tx16Args, Tx16Combined,
    Tx16Payment, Tx17, Tx18, Tx18Args, Tx18Combined, Tx18Payment, TxIdUid, TxRecord,
};

verus! {

/// Columns of the genesis transfer table; fixes its chunk size.
pub const TX1_COLUMNS: usize = 7;

/// Columns of the payment table; fixes its chunk size.
pub const TX2_COLUMNS: usize = 7;

/// Columns of the issue table; fixes its chunk size.
pub const TX3_COLUMNS: usize = 10;

/// Columns of the transfer table; fixes its chunk size.
pub const TX4_COLUMNS: usize = 9;

/// Columns of the reissue table; fixes its chunk size.
pub const TX5_COLUMNS: usize = 8;

/// Columns of the burn table; fixes its chunk size.
pub const TX6_COLUMNS: usize = 7;

/// Columns of the exchange table; fixes its chunk size.
pub const TX7_COLUMNS: usize = 9;

/// Columns of the lease table; fixes its chunk size.
pub const TX8_COLUMNS: usize = 7;

/// Columns of the lease cancellation table; fixes its chunk size.
pub const TX9_COLUMNS: usize = 7;

/// Columns of the alias creation table; fixes its chunk size.
pub const TX10_COLUMNS: usize = 6;

/// Columns of the mass transfer table; fixes its chunk size.
pub const TX11_COLUMNS: usize = 7;

/// Columns of the data table; fixes its chunk size.
pub const TX12_COLUMNS: usize = 5;

/// Columns of the script assignment table; fixes its chunk size.
pub const TX13_COLUMNS: usize = 6;

/// Columns of the sponsorship table; fixes its chunk size.
pub const TX14_COLUMNS: usize = 7;

/// Columns of the asset script assignment table; fixes its chunk size.
pub const TX15_COLUMNS: usize = 7;

/// Columns of the script invocation table; fixes its chunk size.
pub const TX16_COLUMNS: usize = 7;

/// Columns of the asset info update table; fixes its chunk size.
pub const TX17_COLUMNS: usize = 8;

/// Columns of the Ethereum-originated invocation table; fixes its chunk size.
pub const TX18_COLUMNS: usize = 7;

/// Columns of the `txs_11_transfers` child table; fixes its chunk size.
pub const TXS_11_TRANSFERS_COLUMNS: usize = 4;

/// Columns of the `txs_12_data` child table; fixes its chunk size.
pub const TXS_12_DATA_COLUMNS: usize = 5;

/// Columns of the `txs_16_args` child table; fixes its chunk size.
pub const TXS_16_ARGS_COLUMNS: usize = 4;

/// Columns of the `txs_16_payment` child table; fixes its chunk size.
pub const TXS_16_PAYMENT_COLUMNS: usize = 4;

/// Columns of the `txs_18_args` child table; fixes its chunk size.
pub const TXS_18_ARGS_COLUMNS: usize = 4;

/// Columns of the `txs_18_payment` child table; fixes its chunk size.
pub const TXS_18_PAYMENT_COLUMNS: usize = 4;

/// The master index as id/uid pairs over plain values.
pub open spec fn index_view(index: Seq<TxIdUid>) -> Seq<(Seq<char>, i64)> {
    index.map_values(|p: TxIdUid| (p.id@, p.uid))
}

/// The index rows a batch of transaction rows contributes.
pub open spec fn id_uids_of<T: TxRecord>(rows: Seq<T>) -> Seq<(Seq<char>, i64)> {
    rows.map_values(|r: T| (r.rec_id(), r.rec_uid()))
}

/// Appends `row` and its index pair unless its key is already present.
fn insert_one_indexed<T: TxRecord>(table: &mut Vec<T>, index: &mut Vec<TxIdUid>, row: T)
    ensures
        final(table)@ == insert_dedup(old(table)@, seq![row]),
        index_view(final(index)@) == index_view(old(index)@) + id_uids_of(
            inserted_rows(old(table)@, seq![row]),
        ),
{
    proof {
        lemma_insert_dedup_single(table@, row);
        lemma_inserted_single(table@, row);
    }
    let found = contains_key_of(table, &row);
    if !found {
        let pair = row.id_uid();
        let ghost iv = index_view(index@);
        index.push(pair);
        table.push(row);
        proof {
            assert(index_view(index@) =~= iv + id_uids_of(seq![row]));
        }
    } else {
        proof {
            assert(id_uids_of(inserted_rows(old(table)@, seq![row])) =~= Seq::<(
                Seq<char>,
                i64,
            )>::empty());
            assert(index_view(index@) =~= index_view(index@) + id_uids_of(
                inserted_rows(old(table)@, seq![row]),
            ));
        }
    }
}

/// Inserts parent rows chunk by chunk, feeding the master index with every
/// row actually inserted; a row whose uid is already present is skipped.
pub fn insert_parent_rows<T: TxRecord>(
    table: &mut Vec<T>,
    index: &mut Vec<TxIdUid>,
    rows: Vec<T>,
    columns_count: usize,
) -> (calls: usize)
    requires
        1 <= columns_count <= MAX_CHUNKABLE_COLUMNS,
    ensures
        final(table)@ == insert_dedup(old(table)@, rows@),
        index_view(final(index)@) == index_view(old(index)@) + id_uids_of(
            inserted_rows(old(table)@, rows@),
        ),
        calls == spec_chunk_count(rows@.len() as int, spec_chunk_size(columns_count as int)),
{
    proof {
        lemma_chunk_size_positive(columns_count as int);
    }
    let size = chunk_size(columns_count);
    let n = rows.len();
    let ghost orig_table = table@;
    let ghost orig_index = index_view(index@);
    let ghost orig_rows = rows@;
    let mut rows = rows;
    let mut calls: usize = 0;
    let mut consumed: usize = 0;
    while consumed < n
        invariant
            10 <= size <= crate::chunker::MAX_INSERT_FIELDS_COUNT,
            size == spec_chunk_size(columns_count as int),
            n == orig_rows.len(),
            0 <= consumed <= n,
            consumed < n ==> consumed == calls * size,
            consumed == n ==> calls == spec_chunk_count(n as int, size as int),
            calls <= consumed,
            rows@ == orig_rows.skip(consumed as int),
            table@ == insert_dedup(orig_table, orig_rows.take(consumed as int)),
            index_view(index@) == orig_index + id_uids_of(
                inserted_rows(orig_table, orig_rows.take(consumed as int)),
            ),
        decreases n - consumed,
    {
        let ghost calls0 = calls as int;
        let ghost consumed0 = consumed as int;
        let remaining = n - consumed;
        let take = if remaining < size {
            remaining
        } else {
            size
        };
        let mut j: usize = 0;
        while j < take
            invariant
                0 <= j <= take,
                consumed + take <= n,
                n == orig_rows.len(),
                rows@ == orig_rows.skip((consumed + j) as int),
                table@ == insert_dedup(orig_table, orig_rows.take((consumed + j) as int)),
                index_view(index@) == orig_index + id_uids_of(
                    inserted_rows(orig_table, orig_rows.take((consumed + j) as int)),
                ),
            decreases take - j,
        {
            let ghost done = (consumed + j) as int;
            let r = rows.remove(0);
            assert(r == orig_rows[done]);
            assert(rows@ =~= orig_rows.skip(done + 1));
            insert_one_indexed(table, index, r);
            proof {
                let pre = orig_rows.take(done);
                lemma_insert_dedup_append(orig_table, pre, seq![orig_rows[done]]);
                lemma_inserted_rows_append(orig_table, pre, seq![orig_rows[done]]);
                assert(pre + seq![orig_rows[done]] =~= orig_rows.take(done + 1));
                assert(orig_index + id_uids_of(inserted_rows(orig_table, pre)) + id_uids_of(
                    inserted_rows(insert_dedup(orig_table, pre), seq![orig_rows[done]]),
                ) =~= orig_index + (id_uids_of(inserted_rows(orig_table, pre)) + id_uids_of(
                    inserted_rows(insert_dedup(orig_table, pre), seq![orig_rows[done]]),
                )));
                assert(id_uids_of(inserted_rows(orig_table, pre)) + id_uids_of(
                    inserted_rows(insert_dedup(orig_table, pre), seq![orig_rows[done]]),
                ) =~= id_uids_of(inserted_rows(orig_table, orig_rows.take(done + 1))));
            }
            j += 1;
        }
        consumed += take;
        calls += 1;
        proof {
            assert(consumed0 == calls0 * size);
            if consumed < n {
                assert(take == size);
                assert(consumed == calls * size) by (nonlinear_arith)
                    requires
                        consumed == consumed0 + take,
                        consumed0 == calls0 * size,
                        calls == calls0 + 1,
                        take == size,
                ;
            } else {
                assert(consumed == n);
                assert(calls0 * (size as int) < n as int);
                assert(n as int <= consumed0 + size);
                assert(consumed0 + size == (calls0 + 1) * (size as int)) by (nonlinear_arith)
                    requires
                        consumed0 == calls0 * (size as int),
                ;
                assert((n as int - 1) / (size as int) + 1 == calls0 + 1) by (nonlinear_arith)
                    requires
                        size >= 1,
                        calls0 >= 0,
                        calls0 * (size as int) < n as int,
                        n as int <= (calls0 + 1) * (size as int),
                ;
            }
        }
    }
    proof {
        assert(orig_rows.take(n as int) =~= orig_rows);
    }
    calls
}

/// The uid the master index resolves a content id to: the uid of the last
/// row carrying that id, if any.
pub open spec fn resolve(index: Seq<TxIdUid>, id: Seq<char>) -> Option<i64>
    decreases index.len(),
{
    if index.len() == 0 {
        None
    } else if index.last().id@ == id {
        Some(index.last().uid)
    } else {
        resolve(index.drop_last(), id)
    }
}

/// A lease cancellation with its reference resolved against the index: an
/// id the index does not know stays absent.
pub open spec fn resolve_tx9(index: Seq<TxIdUid>, t: Tx9Partial) -> Tx9 {
    Tx9 {
        meta: t.meta,
        lease_id: t.lease_id,
        lease_tx_uid: match t.lease_id {
            Some(lid) => resolve(index, lid@),
            None => None,
        },
    }
}

/// A whole lease-cancellation batch, resolved.
pub open spec fn resolve_all(index: Seq<TxIdUid>, batch: Seq<Tx9Partial>) -> Seq<Tx9> {
    batch.map_values(|t: Tx9Partial| resolve_tx9(index, t))
}

/// Resolves one content id against the master index.
fn resolve_exec(index: &Vec<TxIdUid>, id: &String) -> (r: Option<i64>)
    ensures
        r == resolve(index@, id@),
{
    let mut i: usize = index.len();
    let mut res: Option<i64> = None;
    assert(index@.take(index@.len() as int) =~= index@);
    while i > 0
        invariant
            0 <= i <= index@.len(),
            match res {
                Some(v) => resolve(index@, id@) == Some(v),
                None => resolve(index@, id@) == resolve(index@.take(i as int), id@),
            },
        decreases i,
    {
        if res.is_none() {
            let ghost pre = index@.take(i as int);
            assert(pre.last() == index@[i as int - 1]);
            assert(pre.drop_last() =~= index@.take(i as int - 1));
            let p = &index[i - 1];
            if p.id == *id {
                res = Some(p.uid);
            }
        }
        i -= 1;
    }
    if res.is_none() {
        assert(index@.take(0) =~= Seq::<TxIdUid>::empty());
    }
    res
}

/// The transaction store: one table per shape plus the master id index.
pub struct TxStore {
    pub txs: Vec<TxIdUid>,
    pub txs_1: Vec<Tx1>,
    pub txs_2: Vec<Tx2>,
    pub txs_3: Vec<Tx3>,
    pub txs_4: Vec<Tx4>,
    pub txs_5: Vec<Tx5>,
    pub txs_6: Vec<Tx6>,
    pub txs_7: Vec<Tx7>,
    pub txs_8: Vec<Tx8>,
    pub txs_9: Vec<Tx9>,
    pub txs_10: Vec<Tx10>,
    pub txs_11: Vec<Tx11>,
    pub txs_12: Vec<Tx12>,
    pub txs_13: Vec<Tx13>,
    pub txs_14: Vec<Tx14>,
    pub txs_15: Vec<Tx15>,
    pub txs_16: Vec<Tx16>,
    pub txs_17: Vec<Tx17>,
    pub txs_18: Vec<Tx18>,
    pub txs_11_transfers: Vec<Tx11Transfers>,
    pub txs_12_data: Vec<Tx12Data>,
    pub txs_16_args: Vec<Tx16Args>,
    pub txs_16_payment: Vec<Tx16Payment>,
    pub txs_18_args: Vec<Tx18Args>,
    pub txs_18_payment: Vec<Tx18Payment>,
}

impl TxStore {
    /// An empty store.
    pub fn new() -> (s: TxStore)
        ensures
            s.txs@ == Seq::<TxIdUid>::empty(),
            s.txs_1@ == Seq::<Tx1>::empty(),
            s.txs_2@ == Seq::<Tx2>::empty(),
            s.txs_3@ == Seq::<Tx3>::empty(),
            s.txs_4@ == Seq::<Tx4>::empty(),
            s.txs_5@ == Seq::<Tx5>::empty(),
            s.txs_6@ == Seq::<Tx6>::empty(),
            s.txs_7@ == Seq::<Tx7>::empty(),
            s.txs_8@ == Seq::<Tx8>::empty(),
            s.txs_9@ == Seq::<Tx9>::empty(),
            s.txs_10@ == Seq::<Tx10>::empty(),
            s.txs_11@ == Seq::<Tx11>::empty(),
            s.txs_12@ == Seq::<Tx12>::empty(),
            s.txs_13@ == Seq::<Tx13>::empty(),
            s.txs_14@ == Seq::<Tx14>::empty(),
            s.txs_15@ == Seq::<Tx15>::empty(),
            s.txs_16@ == Seq::<Tx16>::empty(),
            s.txs_17@ == Seq::<Tx17>::empty(),
            s.txs_18@ == Seq::<Tx18>::empty(),
            s.txs_11_transfers@ == Seq::<Tx11Transfers>::empty(),
            s.txs_12_data@ == Seq::<Tx12Data>::empty(),
            s.txs_16_args@ == Seq::<Tx16Args>::empty(),
            s.txs_16_payment@ == Seq::<Tx16Payment>::empty(),
            s.txs_18_args@ == Seq::<Tx18Args>::empty(),
            s.txs_18_payment@ == Seq::<Tx18Payment>::empty(),
    {
        TxStore {
            txs: Vec::new(),
            txs_1: Vec::new(),
            txs_2: Vec::new(),
            txs_3: Vec::new(),
            txs_4: Vec::new(),
            txs_5: Vec::new(),
            txs_6: Vec::new(),
            txs_7: Vec::new(),
            txs_8: Vec::new(),
            txs_9: Vec::new(),
            txs_10: Vec::new(),
            txs_11: Vec::new(),
            txs_12: Vec::new(),
            txs_13: Vec::new(),
            txs_14: Vec::new(),
            txs_15: Vec::new(),
            txs_16: Vec::new(),
            txs_17: Vec::new(),
            txs_18: Vec::new(),
            txs_11_transfers: Vec::new(),
            txs_12_data: Vec::new(),
            txs_16_args: Vec::new(),
            txs_16_payment: Vec::new(),
            txs_18_args: Vec::new(),
            txs_18_payment: Vec::new(),
        }
    }

    /// Writes a batch of genesis transfer transactions; a row whose uid is
    /// already stored is skipped, and each stored row joins the master
    /// index.
    pub fn insert_txs_1(&mut self, txs: Vec<Tx1>)
        ensures
            final(self).txs_1@ == insert_dedup(old(self).txs_1@, txs@),
            index_view(final(self).txs@) == index_view(old(self).txs@) + id_uids_of(
                inserted_rows(old(self).txs_1@, txs@),
            ),
            final(self).txs_2 == old(self).txs_2,
            final(self).txs_3 == old(self).txs_3,
            final(self).txs_4 == old(self).txs_4,
            final(self).txs_5 == old(self).txs_5,
            final(self).txs_6 == old(self).txs_6,
            final(self).txs_7 == old(self).txs_7,
            final(self).txs_8 == old(self).txs_8,
            final(self).txs_9 == old(self).txs_9,
            final(self).txs_10 == old(self).txs_10,
            final(self).txs_11 == old(self).txs_11,
            final(self).txs_12 == old(self).txs_12,
            final(self).txs_13 == old(self).txs_13,
            final(self).txs_14 == old(self).txs_14,
            final(self).txs_15 == old(self).txs_15,
            final(self).txs_16 == old(self).txs_16,
            final(self).txs_17 == old(self).txs_17,
            final(self).txs_18 == old(self).txs_18,
            final(self).txs_11_transfers == old(self).txs_11_transfers,
            final(self).txs_12_data == old(self).txs_12_data,
            final(self).txs_16_args == old(self).txs_16_args,
            final(self).txs_16_payment == old(self).txs_16_payment,
            final(self).txs_18_args == old(self).txs_18_args,
            final(self).txs_18_payment == old(self).txs_18_payment,
    {
        insert_parent_rows(&mut self.txs_1, &mut self.txs, txs, TX1_COLUMNS);
    }

    /// Writes a batch of payment transactions; a row whose uid is
    /// already stored is skipped, and each stored row joins the master
    /// index.
    pub fn insert_txs_2(&mut self, txs: Vec<Tx2>)
        ensures
            final(self).txs_2@ == insert_dedup(old(self).txs_2@, txs@),
            index_view(final(self).txs@) == index_view(old(self).txs@) + id_uids_of(
                inserted_rows(old(self).txs_2@, txs@),
            ),
            final(self).txs_1 == old(self).txs_1,
            final(self).txs_3 == old(self).txs_3,
            final(self).txs_4 == old(self).txs_4,
            final(self).txs_5 == old(self).txs_5,
            final(self).txs_6 == old(self).txs_6,
            final(self).txs_7 == old(self).txs_7,
            final(self).txs_8 == old(self).txs_8,
            final(self).txs_9 == old(self).txs_9,
            final(self).txs_10 == old(self).txs_10,
            final(self).txs_11 == old(self).txs_11,
            final(self).txs_12 == old(self).txs_12,
            final(self).txs_13 == old(self).txs_13,
            final(self).txs_14 == old(self).txs_14,
            final(self).txs_15 == old(self).txs_15,
            final(self).txs_16 == old(self).txs_16,
            final(self).txs_17 == old(self).txs_17,
            final(self).txs_18 == old(self).txs_18,
            final(self).txs_11_transfers == old(self).txs_11_transfers,
            final(self).txs_12_data == old(self).txs_12_data,
            final(self).txs_16_args == old(self).txs_16_args,
            final(self).txs_16_payment == old(self).txs_16_payment,
            final(self).txs_18_args == old(self).txs_18_args,
            final(self).txs_18_payment == old(self).txs_18_payment,
    {
        insert_parent_rows(&mut self.txs_2, &mut self.txs, txs, TX2_COLUMNS);
    }

    /// Writes a batch of issue transactions; a row whose uid is
    /// already stored is skipped, and each stored row joins the master
    /// index.
    pub fn insert_txs_3(&mut self, txs: Vec<Tx3>)
        ensures
            final(self).txs_3@ == insert_dedup(old(self).txs_3@, txs@),
            index_view(final(self).txs@) == index_view(old(self).txs@) + id_uids_of(
                inserted_rows(old(self).txs_3@, txs@),
            ),
            final(self).txs_1 == old(self).txs_1,
            final(self).txs_2 == old(self).txs_2,
            final(self).txs_4 == old(self).txs_4,
            final(self).txs_5 == old(self).txs_5,
            final(self).txs_6 == old(self).txs_6,
            final(self).txs_7 == old(self).txs_7,
            final(self).txs_8 == old(self).txs_8,
            final(self).txs_9 == old(self).txs_9,
            final(self).txs_10 == old(self).txs_10,
            final(self).txs_11 == old(self).txs_11,
            final(self).txs_12 == old(self).txs_12,
            final(self).txs_13 == old(self).txs_13,
            final(self).txs_14 == old(self).txs_14,
            final(self).txs_15 == old(self).txs_15,
            final(self).txs_16 == old(self).txs_16,
            final(self).txs_17 == old(self).txs_17,
            final(self).txs_18 == old(self).txs_18,
            final(self).txs_11_transfers == old(self).txs_11_transfers,
            final(self).txs_12_data == old(self).txs_12_data,
            final(self).txs_16_args == old(self).txs_16_args,
            final(self).txs_16_payment == old(self).txs_16_payment,
            final(self).txs_18_args == old(self).txs_18_args,
            final(self).txs_18_payment == old(self).txs_18_payment,
    {
        insert_parent_rows(&mut self.txs_3, &mut self.txs, txs, TX3_COLUMNS);
    }

    /// Writes a batch of transfer transactions; a row whose uid is
    /// already stored is skipped, and each stored row joins the master
    /// index.
    pub fn insert_txs_4(&mut self, txs: Vec<Tx4>)
        ensures
            final(self).txs_4@ == insert_dedup(old(self).txs_4@, txs@),
            index_view(final(self).txs@) == index_view(old(self).txs@) + id_uids_of(
                inserted_rows(old(self).txs_4@, txs@),
            ),
            final(self).txs_1 == old(self).txs_1,
            final(self).txs_2 == old(self).txs_2,
            final(self).txs_3 == old(self).txs_3,
            final(self).txs_5 == old(self).txs_5,
            final(self).txs_6 == old(self).txs_6,
            final(self).txs_7 == old(self).txs_7,
            final(self).txs_8 == old(self).txs_8,
            final(self).txs_9 == old(self).txs_9,
            final(self).txs_10 == old(self).txs_10,
            final(self).txs_11 == old(self).txs_11,
            final(self).txs_12 == old(self).txs_12,
            final(self).txs_13 == old(self).txs_13,
            final(self).txs_14 == old(self).txs_14,
            final(self).txs_15 == old(self).txs_15,
            final(self).txs_16 == old(self).txs_16,
            final(self).txs_17 == old(self).txs_17,
            final(self).txs_18 == old(self).txs_18,
            final(self).txs_11_transfers == old(self).txs_11_transfers,
            final(self).txs_12_data == old(self).txs_12_data,
            final(self).txs_16_args == old(self).txs_16_args,
            final(self).txs_16_payment == old(self).txs_16_payment,
            final(self).txs_18_args == old(self).txs_18_args,
            final(self).txs_18_payment == old(self).txs_18_payment,
    {
        insert_parent_rows(&mut self.txs_4, &mut self.txs, txs, TX4_COLUMNS);
    }

    /// Writes a batch of reissue transactions; a row whose uid is
    /// already stored is skipped, and each stored row joins the master
    /// index.
    pub fn insert_txs_5(&mut self, txs: Vec<Tx5>)
        ensures
            final(self).txs_5@ == insert_dedup(old(self).txs_5@, txs@),
            index_view(final(self).txs@) == index_view(old(self).txs@) + id_uids_of(
                inserted_rows(old(self).txs_5@, txs@),
            ),
            final(self).txs_1 == old(self).txs_1,
            final(self).txs_2 == old(self).txs_2,
            final(self).txs_3 == old(self).txs_3,
            final(self).txs_4 == old(self).txs_4,
            final(self).txs_6 == old(self).txs_6,
            final(self).txs_7 == old(self).txs_7,
            final(self).txs_8 == old(self).txs_8,
            final(self).txs_9 == old(self).txs_9,
            final(self).txs_10 == old(self).txs_10,
            final(self).txs_11 == old(self).txs_11,
            final(self).txs_12 == old(self).txs_12,
            final(self).txs_13 == old(self).txs_13,
            final(self).txs_14 == old(self).txs_14,
            final(self).txs_15 == old(self).txs_15,
            final(self).txs_16 == old(self).txs_16,
            final(self).txs_17 == old(self).txs_17,
            final(self).txs_18 == old(self).txs_18,
            final(self).txs_11_transfers == old(self).txs_11_transfers,
            final(self).txs_12_data == old(self).txs_12_data,
            final(self).txs_16_args == old(self).txs_16_args,
            final(self).txs_16_payment == old(self).txs_16_payment,
            final(self).txs_18_args == old(self).txs_18_args,
            final(self).txs_18_payment == old(self).txs_18_payment,
    {
        insert_parent_rows(&mut self.txs_5, &mut self.txs, txs, TX5_COLUMNS);
    }

    /// Writes a batch of burn transactions; a row whose uid is
    /// already stored is skipped, and each stored row joins the master
    /// index.
    pub fn insert_txs_6(&mut self, txs: Vec<Tx6>)
        ensures
            final(self).txs_6@ == insert_dedup(old(self).txs_6@, txs@),
            index_view(final(self).txs@) == index_view(old(self).txs@) + id_uids_of(
                inserted_rows(old(self).txs_6@, txs@),
            ),
            final(self).txs_1 == old(self).txs_1,
            final(self).txs_2 == old(self).txs_2,
            final(self).txs_3 == old(self).txs_3,
            final(self).txs_4 == old(self).txs_4,
            final(self).txs_5 == old(self).txs_5,
            final(self).txs_7 == old(self).txs_7,
            final(self).txs_8 == old(self).txs_8,
            final(self).txs_9 == old(self).txs_9,
            final(self).txs_10 == old(self).txs_10,
            final(self).txs_11 == old(self).txs_11,
            final(self).txs_12 == old(self).txs_12,
            final(self).txs_13 == old(self).txs_13,
            final(self).txs_14 == old(self).txs_14,
            final(self).txs_15 == old(self).txs_15,
            final(self).txs_16 == old(self).txs_16,
            final(self).txs_17 == old(self).txs_17,
            final(self).txs_18 == old(self).txs_18,
            final(self).txs_11_transfers == old(self).txs_11_transfers,
            final(self).txs_12_data == old(self).txs_12_data,
            final(self).txs_16_args == old(self).txs_16_args,
            final(self).txs_16_payment == old(self).txs_16_payment,
            final(self).txs_18_args == old(self).txs_18_args,
            final(self).txs_18_payment == old(self).txs_18_payment,
    {
        insert_parent_rows(&mut self.txs_6, &mut self.txs, txs, TX6_COLUMNS);
    }

    /// Writes a batch of exchange transactions; a row whose uid is
    /// already stored is skipped, and each stored row joins the master
    /// index.
    pub fn insert_txs_7(&mut self, txs: Vec<Tx7>)
        ensures
            final(self).txs_7@ == insert_dedup(old(self).txs_7@, txs@),
            index_view(final(self).txs@) == index_view(old(self).txs@) + id_uids_of(
                inserted_rows(old(self).txs_7@, txs@),
            ),
            final(self).txs_1 == old(self).txs_1,
            final(self).txs_2 == old(self).txs_2,
            final(self).txs_3 == old(self).txs_3,
            final(self).txs_4 == old(self).txs_4,
            final(self).txs_5 == old(self).txs_5,
            final(self).txs_6 == old(self).txs_6,
            final(self).txs_8 == old(self).txs_8,
            final(self).txs_9 == old(self).txs_9,
            final(self).txs_10 == old(self).txs_10,
            final(self).txs_11 == old(self).txs_11,
            final(self).txs_12 == old(self).txs_12,
            final(self).txs_13 == old(self).txs_13,
            final(self).txs_14 == old(self).txs_14,
            final(self).txs_15 == old(self).txs_15,
            final(self).txs_16 == old(self).txs_16,
            final(self).txs_17 == old(self).txs_17,
            final(self).txs_18 == old(self).txs_18,
            final(self).txs_11_transfers == old(self).txs_11_transfers,
            final(self).txs_12_data == old(self).txs_12_data,
            final(self).txs_16_args == old(self).txs_16_args,
            final(self).txs_16_payment == old(self).txs_16_payment,
            final(self).txs_18_args == old(self).txs_18_args,
            final(self).txs_18_payment == old(self).txs_18_payment,
    {
        insert_parent_rows(&mut self.txs_7, &mut self.txs, txs, TX7_COLUMNS);
    }

    /// Writes a batch of lease transactions; a row whose uid is
    /// already stored is skipped, and each stored row joins the master
    /// index.
    pub fn insert_txs_8(&mut self, txs: Vec<Tx8>)
        ensures
            final(self).txs_8@ == insert_dedup(old(self).txs_8@, txs@),
            index_view(final(self).txs@) == index_view(old(self).txs@) + id_uids_of(
                inserted_rows(old(self).txs_8@, txs@),
            ),
            final(self).txs_1 == old(self).txs_1,
            final(self).txs_2 == old(self).txs_2,
            final(self).txs_3 == old(self).txs_3,
            final(self).txs_4 == old(self).txs_4,
            final(self).txs_5 == old(self).txs_5,
            final(self).txs_6 == old(self).txs_6,
            final(self).txs_7 == old(self).txs_7,
            final(self).txs_9 == old(self).txs_9,
            final(self).txs_10 == old(self).txs_10,
            final(self).txs_11 == old(self).txs_11,
            final(self).txs_12 == old(self).txs_12,
            final(self).txs_13 == old(self).txs_13,
            final(self).txs_14 == old(self).txs_14,
            final(self).txs_15 == old(self).txs_15,
            final(self).txs_16 == old(self).txs_16,
            final(self).txs_17 == old(self).txs_17,
            final(self).txs_18 == old(self).txs_18,
            final(self).txs_11_transfers == old(self).txs_11_transfers,
            final(self).txs_12_data == old(self).txs_12_data,
            final(self).txs_16_args == old(self).txs_16_args,
            final(self).txs_16_payment == old(self).txs_16_payment,
            final(self).txs_18_args == old(self).txs_18_args,
            final(self).txs_18_payment == old(self).txs_18_payment,
    {
        insert_parent_rows(&mut self.txs_8, &mut self.txs, txs, TX8_COLUMNS);
    }

    /// Writes a batch of alias creation transactions; a row whose uid is
    /// already stored is skipped, and each stored row joins the master
    /// index.
    pub fn insert_txs_10(&mut self, txs: Vec<Tx10>)
        ensures
            final(self).txs_10@ == insert_dedup(old(self).txs_10@, txs@),
            index_view(final(self).txs@) == index_view(old(self).txs@) + id_uids_of(
                inserted_rows(old(self).txs_10@, txs@),
            ),
            final(self).txs_1 == old(self).txs_1,
            final(self).txs_2 == old(self).txs_2,
            final(self).txs_3 == old(self).txs_3,
            final(self).txs_4 == old(self).txs_4,
            final(self).txs_5 == old(self).txs_5,
            final(self).txs_6 == old(self).txs_6,
            final(self).txs_7 == old(self).txs_7,
            final(self).txs_8 == old(self).txs_8,
            final(self).txs_9 == old(self).txs_9,
            final(self).txs_11 == old(self).txs_11,
            final(self).txs_12 == old(self).txs_12,
            final(self).txs_13 == old(self).txs_13,
            final(self).txs_14 == old(self).txs_14,
            final(self).txs_15 == old(self).txs_15,
            final(self).txs_16 == old(self).txs_16,
            final(self).txs_17 == old(self).txs_17,
            final(self).txs_18 == old(self).txs_18,
            final(self).txs_11_transfers == old(self).txs_11_transfers,
            final(self).txs_12_data == old(self).txs_12_data,
            final(self).txs_16_args == old(self).txs_16_args,
            final(self).txs_16_payment == old(self).txs_16_payment,
            final(self).txs_18_args == old(self).txs_18_args,
            final(self).txs_18_payment == old(self).txs_18_payment,
    {
        insert_parent_rows(&mut self.txs_10, &mut self.txs, txs, TX10_COLUMNS);
    }

    /// Writes a batch of script assignment transactions; a row whose uid is
    /// already stored is skipped, and each stored row joins the master
    /// index.
    pub fn insert_txs_13(&mut self, txs: Vec<Tx13>)
        ensures
            final(self).txs_13@ == insert_dedup(old(self).txs_13@, txs@),
            index_view(final(self).txs@) == index_view(old(self).txs@) + id_uids_of(
                inserted_rows(old(self).txs_13@, txs@),
            ),
            final(self).txs_1 == old(self).txs_1,
            final(self).txs_2 == old(self).txs_2,
            final(self).txs_3 == old(self).txs_3,
            final(self).txs_4 == old(self).txs_4,
            final(self).txs_5 == old(self).txs_5,
            final(self).txs_6 == old(self).txs_6,
            final(self).txs_7 == old(self).txs_7,
            final(self).txs_8 == old(self).txs_8,
            final(self).txs_9 == old(self).txs_9,
            final(self).txs_10 == old(self).txs_10,
            final(self).txs_11 == old(self).txs_11,
            final(self).txs_12 == old(self).txs_12,
            final(self).txs_14 == old(self).txs_14,
            final(self).txs_15 == old(self).txs_15,
            final(self).txs_16 == old(self).txs_16,
            final(self).txs_17 == old(self).txs_17,
            final(self).txs_18 == old(self).txs_18,
            final(self).txs_11_transfers == old(self).txs_11_transfers,
            final(self).txs_12_data == old(self).txs_12_data,
            final(self).txs_16_args == old(self).txs_16_args,
            final(self).txs_16_payment == old(self).txs_16_payment,
            final(self).txs_18_args == old(self).txs_18_args,
            final(self).txs_18_payment == old(self).txs_18_payment,
    {
        insert_parent_rows(&mut self.txs_13, &mut self.txs, txs, TX13_COLUMNS);
    }

    /// Writes a batch of sponsorship transactions; a row whose uid is
    /// already stored is skipped, and each stored row joins the master
    /// index.
    pub fn insert_txs_14(&mut self, txs: Vec<Tx14>)
        ensures
            final(self).txs_14@ == insert_dedup(old(self).txs_14@, txs@),
            index_view(final(self).txs@) == index_view(old(self).txs@) + id_uids_of(
                inserted_rows(old(self).txs_14@, txs@),
            ),
            final(self).txs_1 == old(self).txs_1,
            final(self).txs_2 == old(self).txs_2,
            final(self).txs_3 == old(self).txs_3,
            final(self).txs_4 == old(self).txs_4,
            final(self).txs_5 == old(self).txs_5,
            final(self).txs_6 == old(self).txs_6,
            final(self).txs_7 == old(self).txs_7,
            final(self).txs_8 == old(self).txs_8,
            final(self).txs_9 == old(self).txs_9,
            final(self).txs_10 == old(self).txs_10,
            final(self).txs_11 == old(self).txs_11,
            final(self).txs_12 == old(self).txs_12,
            final(self).txs_13 == old(self).txs_13,
            final(self).txs_15 == old(self).txs_15,
            final(self).txs_16 == old(self).txs_16,
            final(self).txs_17 == old(self).txs_17,
            final(self).txs_18 == old(self).txs_18,
            final(self).txs_11_transfers == old(self).txs_11_transfers,
            final(self).txs_12_data == old(self).txs_12_data,
            final(self).txs_16_args == old(self).txs_16_args,
            final(self).txs_16_payment == old(self).txs_16_payment,
            final(self).txs_18_args == old(self).txs_18_args,
            final(self).txs_18_payment == old(self).txs_18_payment,
    {
        insert_parent_rows(&mut self.txs_14, &mut self.txs, txs, TX14_COLUMNS);
    }

    /// Writes a batch of asset script assignment transactions; a row whose uid is
    /// already stored is skipped, and each stored row joins the master
    /// index.
    pub fn insert_txs_15(&mut self, txs: Vec<Tx15>)
        ensures
            final(self).txs_15@ == insert_dedup(old(self).txs_15@, txs@),
            index_view(final(self).txs@) == index_view(old(self).txs@) + id_uids_of(
                inserted_rows(old(self).txs_15@, txs@),
            ),
            final(self).txs_1 == old(self).txs_1,
            final(self).txs_2 == old(self).txs_2,
            final(self).txs_3 == old(self).txs_3,
            final(self).txs_4 == old(self).txs_4,
            final(self).txs_5 == old(self).txs_5,
            final(self).txs_6 == old(self).txs_6,
            final(self).txs_7 == old(self).txs_7,
            final(self).txs_8 == old(self).txs_8,
            final(self).txs_9 == old(self).txs_9,
            final(self).txs_10 == old(self).txs_10,
            final(self).txs_11 == old(self).txs_11,
            final(self).txs_12 == old(self).txs_12,
            final(self).txs_13 == old(self).txs_13,
            final(self).txs_14 == old(self).txs_14,
            final(self).txs_16 == old(self).txs_16,
            final(self).txs_17 == old(self).txs_17,
            final(self).txs_18 == old(self).txs_18,
            final(self).txs_11_transfers == old(self).txs_11_transfers,
            final(self).txs_12_data == old(self).txs_12_data,
            final(self).txs_16_args == old(self).txs_16_args,
            final(self).txs_16_payment == old(self).txs_16_payment,
            final(self).txs_18_args == old(self).txs_18_args,
            final(self).txs_18_payment == old(self).txs_18_payment,
    {
        insert_parent_rows(&mut self.txs_15, &mut self.txs, txs, TX15_COLUMNS);
    }

    /// Writes a batch of asset info update transactions; a row whose uid is
    /// already stored is skipped, and each stored row joins the master
    /// index.
    pub fn insert_txs_17(&mut self, txs: Vec<Tx17>)
        ensures
            final(self).txs_17@ == insert_dedup(old(self).txs_17@, txs@),
            index_view(final(self).txs@) == index_view(old(self).txs@) + id_uids_of(
                inserted_rows(old(self).txs_17@, txs@),
            ),
            final(self).txs_1 == old(self).txs_1,
            final(self).txs_2 == old(self).txs_2,
            final(self).txs_3 == old(self).txs_3,
            final(self).txs_4 == old(self).txs_4,
            final(self).txs_5 == old(self).txs_5,
            final(self).txs_6 == old(self).txs_6,
            final(self).txs_7 == old(self).txs_7,
            final(self).txs_8 == old(self).txs_8,
            final(self).txs_9 == old(self).txs_9,
            final(self).txs_10 == old(self).txs_10,
            final(self).txs_11 == old(self).txs_11,
            final(self).txs_12 == old(self).txs_12,
            final(self).txs_13 == old(self).txs_13,
            final(self).txs_14 == old(self).txs_14,
            final(self).txs_15 == old(self).txs_15,
            final(self).txs_16 == old(self).txs_16,
            final(self).txs_18 == old(self).txs_18,
            final(self).txs_11_transfers == old(self).txs_11_transfers,
            final(self).txs_12_data == old(self).txs_12_data,
            final(self).txs_16_args == old(self).txs_16_args,
            final(self).txs_16_payment == old(self).txs_16_payment,
            final(self).txs_18_args == old(self).txs_18_args,
            final(self).txs_18_payment == old(self).txs_18_payment,
    {
        insert_parent_rows(&mut self.txs_17, &mut self.txs, txs, TX17_COLUMNS);
    }

    /// Writes a batch of lease cancellations.  Each textual lease reference
    /// is first resolved against the master index; an id storage does not
    /// know is kept as an absent reference, never an error.
    pub fn insert_txs_9(&mut self, txs: Vec<Tx9Partial>)
        ensures
            final(self).txs_9@ == insert_dedup(
                old(self).txs_9@,
                resolve_all(old(self).txs@, txs@),
            ),
            index_view(final(self).txs@) == index_view(old(self).txs@) + id_uids_of(
                inserted_rows(old(self).txs_9@, resolve_all(old(self).txs@, txs@)),
            ),
            final(self).txs_1 == old(self).txs_1,
            final(self).txs_2 == old(self).txs_2,
            final(self).txs_3 == old(self).txs_3,
            final(self).txs_4 == old(self).txs_4,
            final(self).txs_5 == old(self).txs_5,
            final(self).txs_6 == old(self).txs_6,
            final(self).txs_7 == old(self).txs_7,
            final(self).txs_8 == old(self).txs_8,
            final(self).txs_10 == old(self).txs_10,
            final(self).txs_11 == old(self).txs_11,
            final(self).txs_12 == old(self).txs_12,
            final(self).txs_13 == old(self).txs_13,
            final(self).txs_14 == old(self).txs_14,
            final(self).txs_15 == old(self).txs_15,
            final(self).txs_16 == old(self).txs_16,
            final(self).txs_17 == old(self).txs_17,
            final(self).txs_18 == old(self).txs_18,
            final(self).txs_11_transfers == old(self).txs_11_transfers,
            final(self).txs_12_data == old(self).txs_12_data,
            final(self).txs_16_args == old(self).txs_16_args,
            final(self).txs_16_payment == old(self).txs_16_payment,
            final(self).txs_18_args == old(self).txs_18_args,
            final(self).txs_18_payment == old(self).txs_18_payment,
    {
        let ghost orig = txs@;
        let mut txs = txs;
        let mut resolved: Vec<Tx9> = Vec::new();
        while txs.len() > 0
            invariant
                self == old(self),
                resolved@ + resolve_all(self.txs@, txs@) =~= resolve_all(self.txs@, orig),
            decreases txs@.len(),
        {
            let ghost rest = txs@;
            let t = txs.remove(0);
            assert(txs@ =~= rest.skip(1));
            let Tx9Partial { meta, lease_id } = t;
            let lease_tx_uid: Option<i64> = match &lease_id {
                Some(lid) => resolve_exec(&self.txs, lid),
                None => None,
            };
            let r = Tx9 { meta, lease_id, lease_tx_uid };
            assert(r == resolve_tx9(self.txs@, rest[0]));
            resolved.push(r);
            assert(resolve_all(self.txs@, rest) =~= seq![resolve_tx9(self.txs@, rest[0])]
                + resolve_all(self.txs@, rest.skip(1)));
        }
        assert(resolve_all(self.txs@, txs@) =~= Seq::<Tx9>::empty());
        assert(resolved@ =~= resolve_all(self.txs@, orig));
        insert_parent_rows(&mut self.txs_9, &mut self.txs, resolved, TX9_COLUMNS);
    }

}


/// The parent rows of a mass transfer batch, in order.
pub open spec fn parents_11(batch: Seq<Tx11Combined>) -> Seq<Tx11> {
    batch.map_values(|c: Tx11Combined| c.tx)
}

/// The `transfers` collections of a mass transfer batch, one group per parent.
pub open spec fn transfer_groups_11(batch: Seq<Tx11Combined>) -> Seq<Seq<Tx11Transfers>> {
    batch.map_values(|c: Tx11Combined| c.transfers@)
}

/// The parent rows of a data batch, in order.
pub open spec fn parents_12(batch: Seq<Tx12Combined>) -> Seq<Tx12> {
    batch.map_values(|c: Tx12Combined| c.tx)
}

/// The `data` collections of a data batch, one group per parent.
pub open spec fn data_groups_12(batch: Seq<Tx12Combined>) -> Seq<Seq<Tx12Data>> {
    batch.map_values(|c: Tx12Combined| c.data@)
}

/// The parent rows of a script invocation batch, in order.
pub open spec fn parents_16(batch: Seq<Tx16Combined>) -> Seq<Tx16> {
    batch.map_values(|c: Tx16Combined| c.tx)
}

/// The `args` collections of a script invocation batch, one group per parent.
pub open spec fn args_groups_16(batch: Seq<Tx16Combined>) -> Seq<Seq<Tx16Args>> {
    batch.map_values(|c: Tx16Combined| c.args@)
}

/// The `payments` collections of a script invocation batch, one group per parent.
pub open spec fn payment_groups_16(batch: Seq<Tx16Combined>) -> Seq<Seq<Tx16Payment>> {
    batch.map_values(|c: Tx16Combined| c.payments@)
}

/// The parent rows of a Ethereum-originated invocation batch, in order.
pub open spec fn parents_18(batch: Seq<Tx18Combined>) -> Seq<Tx18> {
    batch.map_values(|c: Tx18Combined| c.tx)
}

/// The `args` collections of a Ethereum-originated invocation batch, one group per parent.
pub open spec fn args_groups_18(batch: Seq<Tx18Combined>) -> Seq<Seq<Tx18Args>> {
    batch.map_values(|c: Tx18Combined| c.args@)
}

/// The `payments` collections of a Ethereum-originated invocation batch, one group per parent.
pub open spec fn payment_groups_18(batch: Seq<Tx18Combined>) -> Seq<Seq<Tx18Payment>> {
    batch.map_values(|c: Tx18Combined| c.payments@)
}

/// Ordered child groups flattened in parent order.
pub open spec fn flatten_groups<T>(groups: Seq<Seq<T>>) -> Seq<T>
    decreases groups.len(),
{
    if groups.len() == 0 {
        Seq::empty()
    } else {
        groups[0] + flatten_groups(groups.skip(1))
    }
}

impl TxStore {
    /// Writes a batch of mass transfer transactions: parent rows first, then the
    /// flattened child rows, each through the batch writer, order kept.
    pub fn insert_txs_11(&mut self, txs: Vec<Tx11Combined>)
        ensures
            final(self).txs_11@ == insert_dedup(old(self).txs_11@, parents_11(txs@)),
            final(self).txs_11_transfers@ == insert_dedup(
                old(self).txs_11_transfers@,
                flatten_groups(transfer_groups_11(txs@)),
            ),
            index_view(final(self).txs@) == index_view(old(self).txs@) + id_uids_of(
                inserted_rows(old(self).txs_11@, parents_11(txs@)),
            ),
            final(self).txs_1 == old(self).txs_1,
            final(self).txs_2 == old(self).txs_2,
            final(self).txs_3 == old(self).txs_3,
            final(self).txs_4 == old(self).txs_4,
            final(self).txs_5 == old(self).txs_5,
            final(self).txs_6 == old(self).txs_6,
            final(self).txs_7 == old(self).txs_7,
            final(self).txs_8 == old(self).txs_8,
            final(self).txs_9 == old(self).txs_9,
            final(self).txs_10 == old(self).txs_10,
            final(self).txs_12 == old(self).txs_12,
            final(self).txs_13 == old(self).txs_13,
            final(self).txs_14 == old(self).txs_14,
            final(self).txs_15 == old(self).txs_15,
            final(self).txs_16 == old(self).txs_16,
            final(self).txs_17 == old(self).txs_17,
            final(self).txs_18 == old(self).txs_18,
            final(self).txs_12_data == old(self).txs_12_data,
            final(self).txs_16_args == old(self).txs_16_args,
            final(self).txs_16_payment == old(self).txs_16_payment,
            final(self).txs_18_args == old(self).txs_18_args,
            final(self).txs_18_payment == old(self).txs_18_payment,
    {
        let ghost orig = txs@;
        let mut txs = txs;
        let mut parents: Vec<Tx11> = Vec::new();
        let mut all_transfers: Vec<Tx11Transfers> = Vec::new();
        while txs.len() > 0
            invariant
                self == old(self),
                parents@ + parents_11(txs@) =~= parents_11(orig),
                all_transfers@ + flatten_groups(transfer_groups_11(txs@)) =~= flatten_groups(
                    transfer_groups_11(orig),
                ),
            decreases txs@.len(),
        {
            let ghost rest = txs@;
            let c = txs.remove(0);
            assert(c == rest[0]);
            assert(txs@ =~= rest.skip(1));
            let Tx11Combined { tx, transfers } = c;
            parents.push(tx);
            let mut transfers = transfers;
            all_transfers.append(&mut transfers);
            proof {
                assert(parents_11(rest) =~= seq![rest[0].tx] + parents_11(rest.skip(1)));
                assert(transfer_groups_11(rest)[0] == rest[0].transfers@);
                assert(transfer_groups_11(rest).skip(1) =~= transfer_groups_11(rest.skip(1)));
                assert(flatten_groups(transfer_groups_11(rest)) == transfer_groups_11(rest)[0] + flatten_groups(
                    transfer_groups_11(rest).skip(1),
                ));
            }
        }
        assert(parents_11(txs@) =~= Seq::<Tx11>::empty());
        assert(parents@ =~= parents_11(orig));
        assert(transfer_groups_11(txs@) =~= Seq::<Seq<Tx11Transfers>>::empty());
        assert(flatten_groups(transfer_groups_11(txs@)) =~= Seq::<Tx11Transfers>::empty());
        assert(all_transfers@ =~= flatten_groups(transfer_groups_11(orig)));
        insert_parent_rows(&mut self.txs_11, &mut self.txs, parents, TX11_COLUMNS);
        chunked(&mut self.txs_11_transfers, all_transfers, TXS_11_TRANSFERS_COLUMNS);
    }

    /// Writes a batch of data transactions: parent rows first, then the
    /// flattened child rows, each through the batch writer, order kept.
    pub fn insert_txs_12(&mut self, txs: Vec<Tx12Combined>)
        ensures
            final(self).txs_12@ == insert_dedup(old(self).txs_12@, parents_12(txs@)),
            final(self).txs_12_data@ == insert_dedup(
                old(self).txs_12_data@,
                flatten_groups(data_groups_12(txs@)),
            ),
            index_view(final(self).txs@) == index_view(old(self).txs@) + id_uids_of(
                inserted_rows(old(self).txs_12@, parents_12(txs@)),
            ),
            final(self).txs_1 == old(self).txs_1,
            final(self).txs_2 == old(self).txs_2,
            final(self).txs_3 == old(self).txs_3,
            final(self).txs_4 == old(self).txs_4,
            final(self).txs_5 == old(self).txs_5,
            final(self).txs_6 == old(self).txs_6,
            final(self).txs_7 == old(self).txs_7,
            final(self).txs_8 == old(self).txs_8,
            final(self).txs_9 == old(self).txs_9,
            final(self).txs_10 == old(self).txs_10,
            final(self).txs_11 == old(self).txs_11,
            final(self).txs_13 == old(self).txs_13,
            final(self).txs_14 == old(self).txs_14,
            final(self).txs_15 == old(self).txs_15,
            final(self).txs_16 == old(self).txs_16,
            final(self).txs_17 == old(self).txs_17,
            final(self).txs_18 == old(self).txs_18,
            final(self).txs_11_transfers == old(self).txs_11_transfers,
            final(self).txs_16_args == old(self).txs_16_args,
            final(self).txs_16_payment == old(self).txs_16_payment,
            final(self).txs_18_args == old(self).txs_18_args,
            final(self).txs_18_payment == old(self).txs_18_payment,
    {
        let ghost orig = txs@;
        let mut txs = txs;
        let mut parents: Vec<Tx12> = Vec::new();
        let mut all_data: Vec<Tx12Data> = Vec::new();
        while txs.len() > 0
            invariant
                self == old(self),
                parents@ + parents_12(txs@) =~= parents_12(orig),
                all_data@ + flatten_groups(data_groups_12(txs@)) =~= flatten_groups(
                    data_groups_12(orig),
                ),
            decreases txs@.len(),
        {
            let ghost rest = txs@;
            let c = txs.remove(0);
            assert(c == rest[0]);
            assert(txs@ =~= rest.skip(1));
            let Tx12Combined { tx, data } = c;
            parents.push(tx);
            let mut data = data;
            all_data.append(&mut data);
            proof {
                assert(parents_12(rest) =~= seq![rest[0].tx] + parents_12(rest.skip(1)));
                assert(data_groups_12(rest)[0] == rest[0].data@);
                assert(data_groups_12(rest).skip(1) =~= data_groups_12(rest.skip(1)));
                assert(flatten_groups(data_groups_12(rest)) == data_groups_12(rest)[0] + flatten_groups(
                    data_groups_12(rest).skip(1),
                ));
            }
        }
        assert(parents_12(txs@) =~= Seq::<Tx12>::empty());
        assert(parents@ =~= parents_12(orig));
        assert(data_groups_12(txs@) =~= Seq::<Seq<Tx12Data>>::empty());
        assert(flatten_groups(data_groups_12(txs@)) =~= Seq::<Tx12Data>::empty());
        assert(all_data@ =~= flatten_groups(data_groups_12(orig)));
        insert_parent_rows(&mut self.txs_12, &mut self.txs, parents, TX12_COLUMNS);
        chunked(&mut self.txs_12_data, all_data, TXS_12_DATA_COLUMNS);
    }

    /// Writes a batch of script invocation transactions: parent rows first, then the
    /// flattened child rows, each through the batch writer, order kept.
    pub fn insert_txs_16(&mut self, txs: Vec<Tx16Combined>)
        ensures
            final(self).txs_16@ == insert_dedup(old(self).txs_16@, parents_16(txs@)),
            final(self).txs_16_args@ == insert_dedup(
                old(self).txs_16_args@,
                flatten_groups(args_groups_16(txs@)),
            ),
            final(self).txs_16_payment@ == insert_dedup(
                old(self).txs_16_payment@,
                flatten_groups(payment_groups_16(txs@)),
            ),
            index_view(final(self).txs@) == index_view(old(self).txs@) + id_uids_of(
                inserted_rows(old(self).txs_16@, parents_16(txs@)),
            ),
            final(self).txs_1 == old(self).txs_1,
            final(self).txs_2 == old(self).txs_2,
            final(self).txs_3 == old(self).txs_3,
            final(self).txs_4 == old(self).txs_4,
            final(self).txs_5 == old(self).txs_5,
            final(self).txs_6 == old(self).txs_6,
            final(self).txs_7 == old(self).txs_7,
            final(self).txs_8 == old(self).txs_8,
            final(self).txs_9 == old(self).txs_9,
            final(self).txs_10 == old(self).txs_10,
            final(self).txs_11 == old(self).txs_11,
            final(self).txs_12 == old(self).txs_12,
            final(self).txs_13 == old(self).txs_13,
            final(self).txs_14 == old(self).txs_14,
            final(self).txs_15 == old(self).txs_15,
            final(self).txs_17 == old(self).txs_17,
            final(self).txs_18 == old(self).txs_18,
            final(self).txs_11_transfers == old(self).txs_11_transfers,
            final(self).txs_12_data == old(self).txs_12_data,
            final(self).txs_18_args == old(self).txs_18_args,
            final(self).txs_18_payment == old(self).txs_18_payment,
    {
        let ghost orig = txs@;
        let mut txs = txs;
        let mut parents: Vec<Tx16> = Vec::new();
        let mut all_args: Vec<Tx16Args> = Vec::new();
        let mut all_payments: Vec<Tx16Payment> = Vec::new();
        while txs.len() > 0
            invariant
                self == old(self),
                parents@ + parents_16(txs@) =~= parents_16(orig),
                all_args@ + flatten_groups(args_groups_16(txs@)) =~= flatten_groups(
                    args_groups_16(orig),
                ),
                all_payments@ + flatten_groups(payment_groups_16(txs@)) =~= flatten_groups(
                    payment_groups_16(orig),
                ),
            decreases txs@.len(),
        {
            let ghost rest = txs@;
            let c = txs.remove(0);
            assert(c == rest[0]);
            assert(txs@ =~= rest.skip(1));
            let Tx16Combined { tx, args, payments } = c;
            parents.push(tx);
            let mut args = args;
            all_args.append(&mut args);
            let mut payments = payments;
            all_payments.append(&mut payments);
            proof {
                assert(parents_16(rest) =~= seq![rest[0].tx] + parents_16(rest.skip(1)));
                assert(args_groups_16(rest)[0] == rest[0].args@);
                assert(args_groups_16(rest).skip(1) =~= args_groups_16(rest.skip(1)));
                assert(flatten_groups(args_groups_16(rest)) == args_groups_16(rest)[0] + flatten_groups(
                    args_groups_16(rest).skip(1),
                ));
                assert(payment_groups_16(rest)[0] == rest[0].payments@);
                assert(payment_groups_16(rest).skip(1) =~= payment_groups_16(rest.skip(1)));
                assert(flatten_groups(payment_groups_16(rest)) == payment_groups_16(rest)[0] + flatten_groups(
                    payment_groups_16(rest).skip(1),
                ));
            }
        }
        assert(parents_16(txs@) =~= Seq::<Tx16>::empty());
        assert(parents@ =~= parents_16(orig));
        assert(args_groups_16(txs@) =~= Seq::<Seq<Tx16Args>>::empty());
        assert(flatten_groups(args_groups_16(txs@)) =~= Seq::<Tx16Args>::empty());
        assert(all_args@ =~= flatten_groups(args_groups_16(orig)));
        assert(payment_groups_16(txs@) =~= Seq::<Seq<Tx16Payment>>::empty());
        assert(flatten_groups(payment_groups_16(txs@)) =~= Seq::<Tx16Payment>::empty());
        assert(all_payments@ =~= flatten_groups(payment_groups_16(orig)));
        insert_parent_rows(&mut self.txs_16, &mut self.txs, parents, TX16_COLUMNS);
        chunked(&mut self.txs_16_args, all_args, TXS_16_ARGS_COLUMNS);
        chunked(&mut self.txs_16_payment, all_payments, TXS_16_PAYMENT_COLUMNS);
    }

    /// Writes a batch of Ethereum-originated invocation transactions: parent rows first, then the
    /// flattened child rows, each through the batch writer, order kept.
    pub fn insert_txs_18(&mut self, txs: Vec<Tx18Combined>)
        ensures
            final(self).txs_18@ == insert_dedup(old(self).txs_18@, parents_18(txs@)),
            final(self).txs_18_args@ == insert_dedup(
                old(self).txs_18_args@,
                flatten_groups(args_groups_18(txs@)),
            ),
            final(self).txs_18_payment@ == insert_dedup(
                old(self).txs_18_payment@,
                flatten_groups(payment_groups_18(txs@)),
            ),
            index_view(final(self).txs@) == index_view(old(self).txs@) + id_uids_of(
                inserted_rows(old(self).txs_18@, parents_18(txs@)),
            ),
            final(self).txs_1 == old(self).txs_1,
            final(self).txs_2 == old(self).txs_2,
            final(self).txs_3 == old(self).txs_3,
            final(self).txs_4 == old(self).txs_4,
            final(self).txs_5 == old(self).txs_5,
            final(self).txs_6 == old(self).txs_6,
            final(self).txs_7 == old(self).txs_7,
            final(self).txs_8 == old(self).txs_8,
            final(self).txs_9 == old(self).txs_9,
            final(self).txs_10 == old(self).txs_10,
            final(self).txs_11 == old(self).txs_11,
            final(self).txs_12 == old(self).txs_12,
            final(self).txs_13 == old(self).txs_13,
            final(self).txs_14 == old(self).txs_14,
            final(self).txs_15 == old(self).txs_15,
            final(self).txs_16 == old(self).txs_16,
            final(self).txs_17 == old(self).txs_17,
            final(self).txs_11_transfers == old(self).txs_11_transfers,
            final(self).txs_12_data == old(self).txs_12_data,
            final(self).txs_16_args == old(self).txs_16_args,
            final(self).txs_16_payment == old(self).txs_16_payment,
    {
        let ghost orig = txs@;
        let mut txs = txs;
        let mut parents: Vec<Tx18> = Vec::new();
        let mut all_args: Vec<Tx18Args> = Vec::new();
        let mut all_payments: Vec<Tx18Payment> = Vec::new();
        while txs.len() > 0
            invariant
                self == old(self),
                parents@ + parents_18(txs@) =~= parents_18(orig),
                all_args@ + flatten_groups(args_groups_18(txs@)) =~= flatten_groups(
                    args_groups_18(orig),
                ),
                all_payments@ + flatten_groups(payment_groups_18(txs@)) =~= flatten_groups(
                    payment_groups_18(orig),
                ),
            decreases txs@.len(),
        {
            let ghost rest = txs@;
            let c = txs.remove(0);
            assert(c == rest[0]);
            assert(txs@ =~= rest.skip(1));
            let Tx18Combined { tx, args, payments } = c;
            parents.push(tx);
            let mut args = args;
            all_args.append(&mut args);
            let mut payments = payments;
            all_payments.append(&mut payments);
            proof {
                assert(parents_18(rest) =~= seq![rest[0].tx] + parents_18(rest.skip(1)));
                assert(args_groups_18(rest)[0] == rest[0].args@);
                assert(args_groups_18(rest).skip(1) =~= args_groups_18(rest.skip(1)));
                assert(flatten_groups(args_groups_18(rest)) == args_groups_18(rest)[0] + flatten_groups(
                    args_groups_18(rest).skip(1),
                ));
                assert(payment_groups_18(rest)[0] == rest[0].payments@);
                assert(payment_groups_18(rest).skip(1) =~= payment_groups_18(rest.skip(1)));
                assert(flatten_groups(payment_groups_18(rest)) == payment_groups_18(rest)[0] + flatten_groups(
                    payment_groups_18(rest).skip(1),
                ));
            }
        }
        assert(parents_18(txs@) =~= Seq::<Tx18>::empty());
        assert(parents@ =~= parents_18(orig));
        assert(args_groups_18(txs@) =~= Seq::<Seq<Tx18Args>>::empty());
        assert(flatten_groups(args_groups_18(txs@)) =~= Seq::<Tx18Args>::empty());
        assert(all_args@ =~= flatten_groups(args_groups_18(orig)));
        assert(payment_groups_18(txs@) =~= Seq::<Seq<Tx18Payment>>::empty());
        assert(flatten_groups(payment_groups_18(txs@)) =~= Seq::<Tx18Payment>::empty());
        assert(all_payments@ =~= flatten_groups(payment_groups_18(orig)));
        insert_parent_rows(&mut self.txs_18, &mut self.txs, parents, TX18_COLUMNS);
        chunked(&mut self.txs_18_args, all_args, TXS_18_ARGS_COLUMNS);
        chunked(&mut self.txs_18_payment, all_payments, TXS_18_PAYMENT_COLUMNS);
    }

}

/// The child rows of one parent, in table order.
pub open spec fn children_of<T: ChildRow>(table: Seq<T>, uid: i64) -> Seq<T>
    decreases table.len(),
{
    if table.len() == 0 {
        Seq::empty()
    } else if table[0].parent_uid() == uid {
        seq![table[0]] + children_of(table.skip(1), uid)
    } else {
        children_of(table.skip(1), uid)
    }
}

/// Child conflict keys carry exactly the owning uid and the position.
pub open spec fn child_keys<T: ChildRow>() -> bool {
    forall|r: T|
        (#[trigger] r.conflict_key()) == (r.parent_uid() as int, r.position(), Seq::<char>::empty())
}

/// Each group belongs to its parent uid and numbers its rows consecutively
/// from zero: the ordinal position is the original input order.
pub open spec fn groups_wf<T: ChildRow>(groups: Seq<Seq<T>>, uids: Seq<i64>) -> bool {
    &&& groups.len() == uids.len()
    &&& forall|j: int, m: int|
        0 <= j < groups.len() && 0 <= m < groups[j].len() ==> (#[trigger] groups[j][m]).parent_uid()
            == uids[j] && groups[j][m].position() == m
}

/// Filtering children distributes over concatenation.
proof fn lemma_children_concat<T: ChildRow>(a: Seq<T>, b: Seq<T>, uid: i64)
    ensures
        children_of(a + b, uid) == children_of(a, uid) + children_of(b, uid),
    decreases a.len(),
{
    if a.len() == 0 {
        assert(a + b =~= b);
        assert(children_of(a, uid) + children_of(b, uid) =~= children_of(b, uid));
    } else {
        let ab = a + b;
        assert(ab[0] == a[0]);
        assert(ab.skip(1) =~= a.skip(1) + b);
        lemma_children_concat(a.skip(1), b, uid);
        if a[0].parent_uid() == uid {
            assert(seq![a[0]] + (children_of(a.skip(1), uid) + children_of(b, uid)) =~= (seq![a[0]]
                + children_of(a.skip(1), uid)) + children_of(b, uid));
        }
    }
}

/// A table with no row of the parent has no children of it.
proof fn lemma_children_none<T: ChildRow>(table: Seq<T>, uid: i64)
    requires
        forall|i: int| 0 <= i < table.len() ==> (#[trigger] table[i]).parent_uid() != uid,
    ensures
        children_of(table, uid) == Seq::<T>::empty(),
    decreases table.len(),
{
    if table.len() != 0 {
        assert(forall|i: int|
            0 <= i < table.skip(1).len() ==> #[trigger] table.skip(1)[i] == table[i + 1]);
        lemma_children_none(table.skip(1), uid);
    }
}

/// A group owned wholly by the parent filters to itself.
proof fn lemma_children_all<T: ChildRow>(g: Seq<T>, uid: i64)
    requires
        forall|i: int| 0 <= i < g.len() ==> (#[trigger] g[i]).parent_uid() == uid,
    ensures
        children_of(g, uid) == g,
    decreases g.len(),
{
    if g.len() != 0 {
        assert(forall|i: int| 0 <= i < g.skip(1).len() ==> #[trigger] g.skip(1)[i] == g[i + 1]);
        lemma_children_all(g.skip(1), uid);
        assert(seq![g[0]] + g.skip(1) =~= g);
    }
}

/// Flattened groups of other parents hold no children of this one.
proof fn lemma_flatten_none<T: ChildRow>(groups: Seq<Seq<T>>, uids: Seq<i64>, uid: i64)
    requires
        groups_wf(groups, uids),
        forall|j: int| 0 <= j < uids.len() ==> #[trigger] uids[j] != uid,
    ensures
        children_of(flatten_groups(groups), uid) == Seq::<T>::empty(),
    decreases groups.len(),
{
    if groups.len() != 0 {
        lemma_children_concat(groups[0], flatten_groups(groups.skip(1)), uid);
        lemma_children_none(groups[0], uid);
        assert(groups_wf(groups.skip(1), uids.skip(1))) by {
            assert(forall|j: int|
                0 <= j < groups.skip(1).len() ==> #[trigger] groups.skip(1)[j] == groups[j + 1]);
            assert(forall|j: int|
                0 <= j < uids.skip(1).len() ==> #[trigger] uids.skip(1)[j] == uids[j + 1]);
        }
        lemma_flatten_none(groups.skip(1), uids.skip(1), uid);
        assert(children_of(flatten_groups(groups), uid) =~= Seq::<T>::empty());
    }
}

/// Within flattened groups, the children of the `k`-th parent are exactly
/// its group, in order.
proof fn lemma_flatten_children<T: ChildRow>(groups: Seq<Seq<T>>, uids: Seq<i64>, k: int)
    requires
        groups_wf(groups, uids),
        forall|i: int, j: int| 0 <= i < j < uids.len() ==> uids[i] != uids[j],
        0 <= k < groups.len(),
    ensures
        children_of(flatten_groups(groups), uids[k]) == groups[k],
    decreases groups.len(),
{
    let uid = uids[k];
    lemma_children_concat(groups[0], flatten_groups(groups.skip(1)), uid);
    assert(groups_wf(groups.skip(1), uids.skip(1))) by {
        assert(forall|j: int|
            0 <= j < groups.skip(1).len() ==> #[trigger] groups.skip(1)[j] == groups[j + 1]);
        assert(forall|j: int|
            0 <= j < uids.skip(1).len() ==> #[trigger] uids.skip(1)[j] == uids[j + 1]);
    }
    if k == 0 {
        lemma_children_all(groups[0], uid);
        assert(forall|j: int|
            0 <= j < uids.skip(1).len() ==> #[trigger] uids.skip(1)[j] == uids[j + 1]);
        lemma_flatten_none(groups.skip(1), uids.skip(1), uid);
        assert(groups[0] + Seq::<T>::empty() =~= groups[0]);
    } else {
        lemma_children_none(groups[0], uid);
        assert(forall|j: int|
            0 <= j < uids.skip(1).len() ==> #[trigger] uids.skip(1)[j] == uids[j + 1]);
        lemma_flatten_children(groups.skip(1), uids.skip(1), k - 1);
        assert(Seq::<T>::empty() + groups[k] =~= groups[k]);
    }
}

/// Fresh child groups are appended whole: none of their keys collides with
/// the table or with one another.
proof fn lemma_insert_groups<T: ChildRow>(table: Seq<T>, groups: Seq<Seq<T>>, uids: Seq<i64>)
    requires
        child_keys::<T>(),
        groups_wf(groups, uids),
        forall|i: int, j: int| 0 <= i < j < uids.len() ==> uids[i] != uids[j],
        forall|i: int, j: int|
            0 <= i < table.len() && 0 <= j < uids.len() ==> (#[trigger] table[i]).parent_uid() != (
            #[trigger] uids[j]),
    ensures
        insert_dedup(table, flatten_groups(groups)) == table + flatten_groups(groups),
    decreases groups.len(),
{
    if groups.len() == 0 {
        assert(table + flatten_groups(groups) =~= table);
    } else {
        let g0 = groups[0];
        let rest = flatten_groups(groups.skip(1));
        lemma_insert_dedup_append(table, g0, rest);
        assert forall|m: int| 0 <= m < g0.len() implies !table_has_key(
            table,
            (#[trigger] g0[m]).conflict_key(),
        ) by {
            if table_has_key(table, g0[m].conflict_key()) {
                let i = choose|i: int|
                    0 <= i < table.len() && (#[trigger] table[i]).conflict_key()
                        == g0[m].conflict_key();
                assert(table[i].parent_uid() as int == uids[0] as int);
            }
        }
        lemma_insert_dedup_all_new(table, g0);
        let t2 = table + g0;
        assert(groups_wf(groups.skip(1), uids.skip(1))) by {
            assert(forall|j: int|
                0 <= j < groups.skip(1).len() ==> #[trigger] groups.skip(1)[j] == groups[j + 1]);
            assert(forall|j: int|
                0 <= j < uids.skip(1).len() ==> #[trigger] uids.skip(1)[j] == uids[j + 1]);
        }
        assert forall|i: int, j: int|
            0 <= i < t2.len() && 0 <= j < uids.skip(1).len() implies (
        #[trigger] t2[i]).parent_uid() != (#[trigger] uids.skip(1)[j]) by {
            assert(uids.skip(1)[j] == uids[j + 1]);
            if i < table.len() {
                assert(t2[i] == table[i]);
            } else {
                assert(t2[i] == g0[i - table.len()]);
                assert(t2[i].parent_uid() == uids[0]);
            }
        }
        lemma_insert_groups(t2, groups.skip(1), uids.skip(1));
        assert((table + g0) + flatten_groups(groups.skip(1)) =~= table + flatten_groups(groups));
    }
}

/// Order preservation: writing fresh, consecutively numbered child groups
/// through the deduplicating insert stores, for each parent, exactly its
/// children in their original order — so the ordinal positions recovered
/// from storage reproduce the input order per parent.
pub proof fn lemma_child_order_preserved<T: ChildRow>(
    table: Seq<T>,
    groups: Seq<Seq<T>>,
    uids: Seq<i64>,
    k: int,
)
    requires
        child_keys::<T>(),
        groups_wf(groups, uids),
        forall|i: int, j: int| 0 <= i < j < uids.len() ==> uids[i] != uids[j],
        forall|i: int, j: int|
            0 <= i < table.len() && 0 <= j < uids.len() ==> (#[trigger] table[i]).parent_uid() != (
            #[trigger] uids[j]),
        0 <= k < groups.len(),
    ensures
        children_of(insert_dedup(table, flatten_groups(groups)), uids[k]) == groups[k],
        forall|m: int|
            0 <= m < groups[k].len() ==> (#[trigger] groups[k][m]).position() == m,
{
    lemma_insert_groups(table, groups, uids);
    lemma_children_concat(table, flatten_groups(groups), uids[k]);
    assert forall|i: int| 0 <= i < table.len() implies (#[trigger] table[i]).parent_uid()
        != uids[k] by {}
    lemma_children_none(table, uids[k]);
    lemma_flatten_children(groups, uids, k);
    assert(Seq::<T>::empty() + groups[k] =~= groups[k]);
}

} // verus!

