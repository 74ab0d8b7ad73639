use chain_store::StoreError;
use chain_store::storage::Storage;
use chain_store::assets::{AssetLedger, AssetOrigin, AssetOverride, AssetUpdate, MAX_UID};
use chain_store::chain_log::{BlockMicroblock, ChainLog};
use chain_store::chunker::{chunk_count, chunk_size, chunked};
use chain_store::tx_store::TxStore;
use chain_store::txs::{
    Tx1, Tx8, Tx9Partial, Tx12, Tx12Combined, Tx12Data, Tx16, Tx16Args, Tx16Combined, Tx16Payment,
    TxMeta,
};
use chain_store::waves_data::{RunningTotals, WavesData};

fn update(uid: i64, block_uid: i64, superseded_by: i64, asset_id: &str) -> AssetUpdate {
    AssetUpdate {
        block_uid,
        uid,
        superseded_by,
        asset_id: asset_id.to_string(),
        decimals: 8,
        name: format!("asset {asset_id}"),
        description: String::new(),
        reissuable: true,
        volume: 1_000_000,
        script: None,
        sponsorship: None,
        nft: false,
    }
}

fn meta(uid: i64, id: &str) -> TxMeta {
    TxMeta {
        uid,
        block_uid: 1,
        id: id.to_string(),
        time_stamp: 1_650_000_000_000,
        sender: "sender".to_string(),
    }
}

fn block(id: &str, height: i32, time_stamp: Option<i64>) -> BlockMicroblock {
    BlockMicroblock { id: id.to_string(), height, time_stamp }
}

fn data_entry(tx_uid: i64, key: &str, pos: i16) -> Tx12Data {
    Tx12Data {
        tx_uid,
        data_key: key.to_string(),
        data_type: "string".to_string(),
        data_value: format!("value {pos}"),
        position_in_tx: pos,
    }
}

fn genesis_batch() -> Vec<Tx1> {
    vec![
        Tx1 { meta: meta(1, "g1"), recipient: "r1".to_string(), amount: 10 },
        Tx1 { meta: meta(2, "g2"), recipient: "r2".to_string(), amount: 20 },
    ]
}

#[test]
fn chunk_size_is_rounded_down_per_column_count() {
    // floor(floor(65535 / 100) / 10) * 10
    assert_eq!(chunk_size(100), 650);
    assert_eq!(chunk_size(1), 65530);
    assert_eq!(chunk_size(12), 5460);
    assert_eq!(chunk_size(6553), 10);
}

#[test]
fn chunk_count_matches_the_batch_layout() {
    // 20,000 rows at 100 columns: 31 calls, the last covering 500 rows.
    let size = chunk_size(100);
    assert_eq!(size, 650);
    assert_eq!(chunk_count(20_000, size), 31);
    assert_eq!(20_000 - 30 * size, 500);
    assert_eq!(chunk_count(0, size), 0);
    assert_eq!(chunk_count(650, size), 1);
    assert_eq!(chunk_count(651, size), 2);
}

#[test]
fn new_version_closes_the_previous_open_one() {
    // Asset A: v1 at chain entry 100 (open), then v2 at chain entry 105.
    let mut ledger = AssetLedger::new(1);
    ledger.insert_asset_updates(&vec![update(1, 100, MAX_UID, "A")]);
    assert_eq!(ledger.updates.len(), 1);
    assert_eq!(ledger.updates[0].superseded_by, MAX_UID);

    ledger.close_assets_superseded_by(&vec![AssetOverride {
        superseded_by: 2,
        id: "A".to_string(),
    }]);
    ledger.insert_asset_updates(&vec![update(2, 105, MAX_UID, "A")]);

    assert_eq!(ledger.updates.len(), 2);
    assert_eq!(ledger.updates[0].uid, 1);
    assert_eq!(ledger.updates[0].superseded_by, 2);
    assert_eq!(ledger.updates[1].uid, 2);
    assert_eq!(ledger.updates[1].superseded_by, MAX_UID);
}

#[test]
fn rollback_deletes_and_reopens_versions() {
    let mut ledger = AssetLedger::new(1);
    ledger.insert_asset_updates(&vec![update(1, 100, MAX_UID, "A")]);
    ledger.close_assets_superseded_by(&vec![AssetOverride {
        superseded_by: 2,
        id: "A".to_string(),
    }]);
    ledger.insert_asset_updates(&vec![update(2, 105, MAX_UID, "A")]);

    // Roll back to chain entry 102: v2 goes, v1 reopens.
    let deleted = ledger.rollback_assets(&102);
    assert_eq!(deleted.len(), 1);
    assert_eq!(deleted[0].uid, 2);
    assert_eq!(deleted[0].id, "A".to_string());

    let mut uids = Vec::new();
    for d in &deleted {
        uids.push(d.uid);
    }
    ledger.reopen_assets_superseded_by(&uids);

    assert_eq!(ledger.updates.len(), 1);
    assert_eq!(ledger.updates[0].uid, 1);
    assert_eq!(ledger.updates[0].superseded_by, MAX_UID);
}

#[test]
fn replaying_an_asset_batch_changes_nothing() {
    let batch = vec![update(1, 100, MAX_UID, "A"), update(2, 100, MAX_UID, "B")];
    let mut once = AssetLedger::new(1);
    once.insert_asset_updates(&batch);
    let mut twice = AssetLedger::new(1);
    twice.insert_asset_updates(&batch);
    twice.insert_asset_updates(&batch);
    assert_eq!(once.updates.len(), 2);
    assert_eq!(twice.updates.len(), 2);
    for i in 0..2 {
        assert_eq!(once.updates[i].uid, twice.updates[i].uid);
        assert_eq!(once.updates[i].asset_id, twice.updates[i].asset_id);
    }
}

#[test]
fn asset_origins_are_written_once() {
    let origin = AssetOrigin {
        asset_id: "A".to_string(),
        first_asset_update_uid: 1,
        origin_transaction_id: "tx-issue".to_string(),
        issuer: "issuer".to_string(),
        issue_height: 7,
        issue_time_stamp: 1_650_000_000_000,
    };
    let mut ledger = AssetLedger::new(1);
    ledger.insert_asset_origins(&vec![origin.clone()]);
    let replayed = AssetOrigin { first_asset_update_uid: 99, ..origin };
    ledger.insert_asset_origins(&vec![replayed]);
    assert_eq!(ledger.origins.len(), 1);
    assert_eq!(ledger.origins[0].first_asset_update_uid, 1);
}

#[test]
fn block_references_are_repointed() {
    let mut ledger = AssetLedger::new(1);
    ledger.insert_asset_updates(&vec![
        update(1, 100, MAX_UID, "A"),
        update(2, 105, MAX_UID, "B"),
        update(3, 110, MAX_UID, "C"),
    ]);
    ledger.update_assets_block_references(&104);
    assert_eq!(ledger.updates[0].block_uid, 100);
    assert_eq!(ledger.updates[1].block_uid, 104);
    assert_eq!(ledger.updates[2].block_uid, 104);

    let above = ledger.assets_gt_block_uid(&100);
    assert_eq!(above, vec![2, 3]);
}

#[test]
fn uid_sequence_is_read_and_resynchronized_explicitly() {
    let mut ledger = AssetLedger::new(5);
    assert_eq!(ledger.get_next_assets_uid(), 5);
    ledger.insert_asset_updates(&vec![update(5, 100, MAX_UID, "A")]);
    assert_eq!(ledger.get_next_assets_uid(), 5);
    ledger.set_assets_next_update_uid(6);
    assert_eq!(ledger.get_next_assets_uid(), 6);
}

#[test]
fn chain_log_appends_and_answers_queries() {
    let mut log = ChainLog::new(1);
    let uids = log.insert_blocks_or_microblocks(&vec![
        block("b1", 10, Some(1_000)),
        block("b2", 11, Some(2_000)),
        block("m1", 11, None),
    ]);
    assert_eq!(uids, vec![1, 2, 3]);

    assert_eq!(log.get_block_uid(&"b2".to_string()), Ok(2));
    assert_eq!(
        log.get_block_uid(&"nowhere".to_string()),
        Err(StoreError::BlockIdNotFound)
    );
    assert_eq!(log.get_key_block_uid(), Ok(2));
    assert_eq!(log.get_total_block_id(), Some("m1".to_string()));

    let prev = log.get_prev_handled_height().unwrap();
    assert_eq!(prev.uid, 1);
    assert_eq!(prev.height, 10);
}

#[test]
fn empty_chain_log_reports_errors_and_none() {
    let log = ChainLog::new(1);
    assert_eq!(log.get_key_block_uid(), Err(StoreError::NoKeyBlock));
    assert_eq!(log.get_total_block_id(), None);
    assert!(log.get_prev_handled_height().is_none());
}

#[test]
fn chain_log_renames_discards_and_rolls_back() {
    let mut log = ChainLog::new(1);
    log.insert_blocks_or_microblocks(&vec![
        block("b1", 10, Some(1_000)),
        block("m1", 10, None),
        block("m2", 10, None),
    ]);

    log.change_block_id(&3, &"m2-final".to_string());
    assert_eq!(log.get_total_block_id(), Some("m2-final".to_string()));

    log.rollback_blocks_microblocks(&2);
    assert_eq!(log.entries.len(), 2);
    assert_eq!(log.entries[1].id, "m1".to_string());

    log.delete_microblocks();
    assert_eq!(log.entries.len(), 1);
    assert_eq!(log.entries[0].id, "b1".to_string());
}

#[test]
fn running_total_accumulates_per_height() {
    let mut totals = RunningTotals::new();
    let r = totals.insert_waves_data(&vec![
        WavesData { height: 1, quantity: 100 },
        WavesData { height: 2, quantity: 50 },
        WavesData { height: 3, quantity: -30 },
    ]);
    assert_eq!(r, Ok(()));
    assert_eq!(totals.rows.len(), 3);
    assert_eq!(totals.rows[0].quantity, 100);
    assert_eq!(totals.rows[1].quantity, 150);
    assert_eq!(totals.rows[2].quantity, 120);
}

#[test]
fn running_total_skips_a_recorded_height() {
    let mut totals = RunningTotals::new();
    let first = totals.insert_waves_data(&vec![WavesData { height: 5, quantity: 10 }]);
    assert_eq!(first, Ok(()));
    let replay = totals.insert_waves_data(&vec![
        WavesData { height: 5, quantity: 999 },
        WavesData { height: 6, quantity: 1 },
    ]);
    assert_eq!(replay, Ok(()));
    assert_eq!(totals.rows.len(), 2);
    assert_eq!(totals.rows[0].quantity, 10);
    assert_eq!(totals.rows[1].quantity, 11);
}

#[test]
fn running_total_overflow_is_an_error() {
    let mut totals = RunningTotals::new();
    let r = totals.insert_waves_data(&vec![
        WavesData { height: 1, quantity: i64::MAX },
        WavesData { height: 2, quantity: 1 },
    ]);
    assert_eq!(r, Err(StoreError::ArithmeticOverflow));
    // The batch stops at the overflowing delta; the first row stands.
    assert_eq!(totals.rows.len(), 1);
    assert_eq!(totals.rows[0].quantity, i64::MAX);
}

#[test]
fn flat_transactions_skip_a_replayed_uid() {
    let mut store = TxStore::new();
    store.insert_txs_1(vec![
        Tx1 { meta: meta(1, "g1"), recipient: "r1".to_string(), amount: 10 },
        Tx1 { meta: meta(1, "g1-again"), recipient: "r2".to_string(), amount: 20 },
        Tx1 { meta: meta(2, "g2"), recipient: "r3".to_string(), amount: 30 },
    ]);
    assert_eq!(store.txs_1.len(), 2);
    assert_eq!(store.txs_1[0].recipient, "r1".to_string());
    assert_eq!(store.txs_1[1].meta.uid, 2);
    // The master index got exactly the stored rows.
    assert_eq!(store.txs.len(), 2);
    assert_eq!(store.txs[0].id, "g1".to_string());
    assert_eq!(store.txs[1].id, "g2".to_string());
}

#[test]
fn combined_transactions_keep_child_order_per_parent() {
    // Two parents: the first owns three data entries, the second none.
    let mut store = TxStore::new();
    store.insert_txs_12(vec![
        Tx12Combined {
            tx: Tx12 { meta: meta(10, "d1") },
            data: vec![
                data_entry(10, "k0", 0),
                data_entry(10, "k1", 1),
                data_entry(10, "k2", 2),
            ],
        },
        Tx12Combined { tx: Tx12 { meta: meta(11, "d2") }, data: vec![] },
    ]);
    assert_eq!(store.txs_12.len(), 2);
    assert_eq!(store.txs_12_data.len(), 3);
    for (pos, row) in store.txs_12_data.iter().enumerate() {
        assert_eq!(row.tx_uid, 10);
        assert_eq!(row.position_in_tx, pos as i16);
    }
}

#[test]
fn lease_cancel_resolves_a_known_lease() {
    let mut store = TxStore::new();
    store.insert_txs_8(vec![Tx8 {
        meta: meta(7, "lease-1"),
        recipient: "r".to_string(),
        amount: 1000,
    }]);
    store.insert_txs_9(vec![Tx9Partial {
        meta: meta(8, "cancel-1"),
        lease_id: Some("lease-1".to_string()),
    }]);
    assert_eq!(store.txs_9.len(), 1);
    assert_eq!(store.txs_9[0].lease_tx_uid, Some(7));
    assert_eq!(store.txs_9[0].lease_id, Some("lease-1".to_string()));
}

#[test]
fn lease_cancel_with_unknown_reference_is_stored_unresolved() {
    let mut store = TxStore::new();
    store.insert_txs_9(vec![Tx9Partial {
        meta: meta(8, "cancel-1"),
        lease_id: Some("no-such-lease".to_string()),
    }]);
    // The batch does not fail; the reference is stored as absent.
    assert_eq!(store.txs_9.len(), 1);
    assert_eq!(store.txs_9[0].lease_tx_uid, None);
}

#[test]
fn replaying_a_transaction_batch_changes_nothing() {
    let mut store = TxStore::new();
    store.insert_txs_1(genesis_batch());
    store.insert_txs_1(genesis_batch());
    assert_eq!(store.txs_1.len(), 2);
    assert_eq!(store.txs.len(), 2);
}

#[test]
fn a_failed_unit_of_work_rolls_back_wholly() {
    let mut storage = Storage::new(1);
    storage.assets.insert_asset_updates(&vec![update(1, 100, MAX_UID, "A")]);

    let snapshot = storage.begin();
    storage.assets.insert_asset_updates(&vec![update(2, 105, MAX_UID, "B")]);
    storage.chain.insert_blocks_or_microblocks(&vec![block("b1", 10, Some(1_000))]);
    storage.txs.insert_txs_1(genesis_batch());
    assert_eq!(storage.assets.updates.len(), 2);
    assert_eq!(storage.chain.entries.len(), 1);
    assert_eq!(storage.txs.txs_1.len(), 2);

    storage.rollback(snapshot);
    assert_eq!(storage.assets.updates.len(), 1);
    assert_eq!(storage.assets.updates[0].asset_id, "A".to_string());
    assert_eq!(storage.chain.entries.len(), 0);
    assert_eq!(storage.txs.txs_1.len(), 0);
    assert_eq!(storage.txs.txs.len(), 0);
}

#[test]
fn empty_batches_change_nothing() {
    let mut ledger = AssetLedger::new(1);
    ledger.insert_asset_updates(&vec![]);
    ledger.close_assets_superseded_by(&vec![]);
    assert_eq!(ledger.updates.len(), 0);

    let mut totals = RunningTotals::new();
    assert_eq!(totals.insert_waves_data(&vec![]), Ok(()));
    assert_eq!(totals.rows.len(), 0);

    let mut store = TxStore::new();
    store.insert_txs_1(vec![]);
    assert_eq!(store.txs_1.len(), 0);
    assert_eq!(store.txs.len(), 0);
}

#[test]
fn chunked_inserts_in_as_many_calls_as_the_formula_says() {
    // At 6553 columns the chunk size bottoms out at 10 rows per call.
    assert_eq!(chunk_size(6553), 10);
    let mut table: Vec<Tx1> = Vec::new();
    let mut rows = Vec::new();
    for uid in 0..25 {
        rows.push(Tx1 {
            meta: meta(uid, &format!("g{uid}")),
            recipient: "r".to_string(),
            amount: uid,
        });
    }
    let calls = chunked(&mut table, rows, 6553);
    assert_eq!(calls, 3);
    assert_eq!(table.len(), 25);

    let none = chunked(&mut table, Vec::new(), 6553);
    assert_eq!(none, 0);
}

#[test]
fn invocation_children_are_split_per_kind() {
    let mut store = TxStore::new();
    let arg = |tx_uid: i64, pos: i16| Tx16Args {
        tx_uid,
        arg_type: "integer".to_string(),
        arg_value: pos.to_string(),
        position_in_args: pos,
    };
    let pay = |tx_uid: i64, pos: i16| Tx16Payment {
        tx_uid,
        amount: 5,
        asset_id: None,
        position_in_payment: pos,
    };
    store.insert_txs_16(vec![
        Tx16Combined {
            tx: Tx16 {
                meta: meta(20, "i1"),
                dapp: "dapp".to_string(),
                function_name: "call".to_string(),
            },
            args: vec![arg(20, 0), arg(20, 1)],
            payments: vec![pay(20, 0)],
        },
        Tx16Combined {
            tx: Tx16 {
                meta: meta(21, "i2"),
                dapp: "dapp".to_string(),
                function_name: "call".to_string(),
            },
            args: vec![arg(21, 0)],
            payments: vec![],
        },
    ]);
    assert_eq!(store.txs_16.len(), 2);
    assert_eq!(store.txs_16_args.len(), 3);
    assert_eq!(store.txs_16_payment.len(), 1);
    assert_eq!(store.txs_16_args[2].tx_uid, 21);
    assert_eq!(store.txs_16_payment[0].tx_uid, 20);
}

#[test]
fn replaying_a_combined_batch_changes_nothing() {
    let batch = || {
        vec![Tx12Combined {
            tx: Tx12 { meta: meta(10, "d1") },
            data: vec![data_entry(10, "k0", 0)],
        }]
    };
    let mut store = TxStore::new();
    store.insert_txs_12(batch());
    store.insert_txs_12(batch());
    assert_eq!(store.txs_12.len(), 1);
    assert_eq!(store.txs_12_data.len(), 1);
    assert_eq!(store.txs.len(), 1);
}

#[test]
fn prev_handled_height_needs_an_entry_one_below_the_top() {
    let mut log = ChainLog::new(1);
    log.insert_blocks_or_microblocks(&vec![block("only", 10, Some(1_000))]);
    // The single entry stands at the top; nothing stands one below it.
    assert!(log.get_prev_handled_height().is_none());
}
