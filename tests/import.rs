use genesis_import::entities::{
    Bytes32, CompressedCoin, ContractUtxoInfo, ContractsAssetKey, ContractsStateKey,
    GenesisBounds, ImportError, Message, TableEntry, TableKind, TxPointer, UtxoId,
};
use genesis_import::handlers::{Group, Handler};
use genesis_import::transaction::Database;
use genesis_import::workers::{import_state, GenesisWorkers, RunState, WORKER_COUNT, kind_at};

fn bounds(block_height: u32, da_block_height: u64) -> GenesisBounds {
    GenesisBounds { block_height, da_block_height }
}

fn utxo(n: u64, index: u16) -> UtxoId {
    UtxoId { tx_id: Bytes32::from_u64(n), output_index: index }
}

fn coin_entry(n: u64, height: u32, amount: u64) -> TableEntry<UtxoId, CompressedCoin> {
    TableEntry {
        key: utxo(n, 0),
        value: CompressedCoin {
            owner: Bytes32::new(1, 2, 3, 4),
            amount,
            asset_id: Bytes32::from_u64(9),
            tx_pointer: TxPointer { block_height: height, tx_index: 1 },
        },
    }
}

fn message_entry(n: u64, da_height: u64) -> TableEntry<Bytes32, Message> {
    TableEntry {
        key: Bytes32::from_u64(n),
        value: Message {
            sender: Bytes32::from_u64(100),
            recipient: Bytes32::from_u64(200),
            nonce: Bytes32::from_u64(n),
            amount: 5,
            data: vec![1, 2, 3],
            da_height,
        },
    }
}

fn utxo_info_entry(n: u64, height: u32) -> TableEntry<Bytes32, ContractUtxoInfo> {
    TableEntry {
        key: Bytes32::from_u64(n),
        value: ContractUtxoInfo {
            utxo_id: utxo(n, 1),
            tx_pointer: TxPointer { block_height: height, tx_index: 0 },
        },
    }
}

#[test]
fn coin_below_genesis_height_is_imported() {
    let groups = vec![Group::Coins(vec![coin_entry(1, 50, 10)])];
    let (db, r) = import_state(Database::new(), bounds(100, 0), groups);
    assert_eq!(r, Ok(()));
    let stored = db.coins.get(&utxo(1, 0)).expect("coin is stored");
    assert_eq!(stored.amount, 10);
    assert_eq!(stored.tx_pointer.block_height, 50);
    assert_eq!(stored.owner, Bytes32::new(1, 2, 3, 4));
    assert_eq!(db.coins.len(), 1);
}

#[test]
fn coin_above_genesis_height_fails() {
    let groups = vec![Group::Coins(vec![coin_entry(1, 150, 10)])];
    let (db, r) = import_state(Database::new(), bounds(100, 0), groups);
    assert_eq!(
        r,
        Err(ImportError::Validation { table: TableKind::Coins, height: 150, bound: 100 })
    );
    assert!(r.unwrap_err().is_validation());
    assert_eq!(db.coins.len(), 0);
    assert!(db.is_empty());
}

#[test]
fn coin_at_genesis_height_is_imported() {
    let groups = vec![Group::Coins(vec![coin_entry(1, 100, 10)])];
    let (db, r) = import_state(Database::new(), bounds(100, 0), groups);
    assert_eq!(r, Ok(()));
    assert_eq!(db.coins.len(), 1);
}

#[test]
fn coin_one_above_genesis_height_fails() {
    let groups = vec![Group::Coins(vec![coin_entry(1, 101, 10)])];
    let (db, r) = import_state(Database::new(), bounds(100, 0), groups);
    assert!(r.unwrap_err().is_validation());
    assert!(db.is_empty());
}

#[test]
fn duplicate_coins_conflict() {
    let groups = vec![Group::Coins(vec![coin_entry(1, 10, 10), coin_entry(1, 20, 30)])];
    let (db, r) = import_state(Database::new(), bounds(100, 0), groups);
    assert_eq!(r, Err(ImportError::Conflict { table: TableKind::Coins }));
    assert!(r.unwrap_err().is_conflict());
    assert_eq!(db.coins.len(), 0);
}

#[test]
fn duplicate_coins_across_groups_conflict() {
    let groups = vec![
        Group::Coins(vec![coin_entry(1, 10, 10)]),
        Group::Coins(vec![coin_entry(2, 10, 10), coin_entry(1, 10, 10)]),
    ];
    let (db, r) = import_state(Database::new(), bounds(100, 0), groups);
    assert_eq!(r, Err(ImportError::Conflict { table: TableKind::Coins }));
    assert!(db.is_empty());
}

#[test]
fn message_above_deposit_height_fails() {
    let groups = vec![Group::Messages(vec![message_entry(7, 200)])];
    let (db, r) = import_state(Database::new(), bounds(100, 100), groups);
    assert_eq!(
        r,
        Err(ImportError::Validation { table: TableKind::Messages, height: 200, bound: 100 })
    );
    assert_eq!(db.messages.len(), 0);
}

#[test]
fn message_is_keyed_by_nonce() {
    let mut entry = message_entry(7, 100);
    entry.key = Bytes32::from_u64(999);
    let (db, r) = import_state(Database::new(), bounds(0, 100), vec![Group::Messages(vec![entry])]);
    assert_eq!(r, Ok(()));
    let m = db.messages.get(&Bytes32::from_u64(7)).expect("message is stored");
    assert_eq!(m.data, vec![1, 2, 3]);
    assert_eq!(m.amount, 5);
    assert!(db.messages.get(&Bytes32::from_u64(999)).is_none());
}

#[test]
fn duplicate_messages_conflict() {
    let groups = vec![Group::Messages(vec![message_entry(7, 1), message_entry(7, 2)])];
    let (db, r) = import_state(Database::new(), bounds(0, 10), groups);
    assert_eq!(r, Err(ImportError::Conflict { table: TableKind::Messages }));
    assert!(db.is_empty());
}

#[test]
fn duplicate_contract_code_conflicts() {
    let code = |n: u64, b: u8| TableEntry { key: Bytes32::from_u64(n), value: vec![b; 4] };
    let groups = vec![Group::ContractsRawCode(vec![code(3, 1), code(4, 2), code(3, 5)])];
    let (db, r) = import_state(Database::new(), bounds(0, 0), groups);
    assert_eq!(r, Err(ImportError::Conflict { table: TableKind::ContractsRawCode }));
    assert!(db.is_empty());
}

#[test]
fn contract_code_is_imported() {
    let groups = vec![Group::ContractsRawCode(vec![TableEntry {
        key: Bytes32::from_u64(3),
        value: vec![0xde, 0xad],
    }])];
    let (db, r) = import_state(Database::new(), bounds(0, 0), groups);
    assert_eq!(r, Ok(()));
    assert_eq!(db.contracts_raw_code.get(&Bytes32::from_u64(3)), Some(&vec![0xde, 0xad]));
}

#[test]
fn contract_utxo_height_checked_and_duplicates_conflict() {
    let (db, r) = import_state(
        Database::new(),
        bounds(10, 0),
        vec![Group::ContractsLatestUtxo(vec![utxo_info_entry(1, 11)])],
    );
    assert_eq!(
        r,
        Err(ImportError::Validation { table: TableKind::ContractsLatestUtxo, height: 11, bound: 10 })
    );
    assert!(db.is_empty());
    let (db, r) = import_state(
        Database::new(),
        bounds(10, 0),
        vec![Group::ContractsLatestUtxo(vec![utxo_info_entry(1, 10), utxo_info_entry(1, 3)])],
    );
    assert_eq!(r, Err(ImportError::Conflict { table: TableKind::ContractsLatestUtxo }));
    assert!(db.is_empty());
    let (db, r) = import_state(
        Database::new(),
        bounds(10, 0),
        vec![Group::ContractsLatestUtxo(vec![utxo_info_entry(1, 10)])],
    );
    assert_eq!(r, Ok(()));
    assert_eq!(db.contracts_latest_utxo.get(&Bytes32::from_u64(1)).map(|v| v.utxo_id), Some(utxo(1, 1)));
}

#[test]
fn bulk_tables_merge_without_conflict() {
    let skey = |s: u64| ContractsStateKey { contract_id: Bytes32::from_u64(1), state_key: Bytes32::from_u64(s) };
    let akey = ContractsAssetKey { contract_id: Bytes32::from_u64(1), asset_id: Bytes32::from_u64(2) };
    let groups = vec![
        Group::ContractsState(vec![
            TableEntry { key: skey(1), value: vec![1] },
            TableEntry { key: skey(2), value: vec![2] },
            TableEntry { key: skey(1), value: vec![3] },
        ]),
        Group::ContractsAssets(vec![
            TableEntry { key: akey, value: 10 },
            TableEntry { key: akey, value: 20 },
        ]),
        Group::Transactions(vec![
            TableEntry { key: Bytes32::from_u64(5), value: vec![9, 9] },
        ]),
    ];
    let (db, r) = import_state(Database::new(), bounds(0, 0), groups);
    assert_eq!(r, Ok(()));
    assert_eq!(db.contracts_state.len(), 2);
    assert_eq!(db.contracts_state.get(&skey(1)), Some(&vec![3]));
    assert_eq!(db.contracts_state.get(&skey(2)), Some(&vec![2]));
    assert_eq!(db.contracts_assets.get(&akey), Some(&20));
    assert_eq!(db.transactions.get(&Bytes32::from_u64(5)), Some(&vec![9, 9]));
}

#[test]
fn failure_in_one_table_discards_all_tables() {
    let groups = vec![
        Group::Coins(vec![coin_entry(1, 1, 1), coin_entry(2, 1, 1)]),
        Group::ContractsAssets(vec![TableEntry {
            key: ContractsAssetKey { contract_id: Bytes32::from_u64(1), asset_id: Bytes32::from_u64(1) },
            value: 1,
        }]),
        Group::Messages(vec![message_entry(3, 500)]),
        Group::Coins(vec![coin_entry(3, 1, 1)]),
    ];
    let (db, r) = import_state(Database::new(), bounds(10, 10), groups);
    assert!(r.unwrap_err().is_validation());
    assert!(db.is_empty());
}

#[test]
fn key_held_before_the_run_conflicts() {
    let (db, r) = import_state(Database::new(), bounds(10, 0), vec![Group::Coins(vec![coin_entry(1, 1, 1)])]);
    assert_eq!(r, Ok(()));
    let (db, r) = import_state(db, bounds(10, 0), vec![Group::Coins(vec![coin_entry(1, 1, 2)])]);
    assert_eq!(r, Err(ImportError::Conflict { table: TableKind::Coins }));
    assert_eq!(db.coins.len(), 1);
    assert_eq!(db.coins.get(&utxo(1, 0)).map(|c| c.amount), Some(1));
}

#[test]
fn order_across_tables_does_not_matter() {
    let make = || {
        (
            Group::Coins(vec![coin_entry(1, 1, 1), coin_entry(2, 2, 2)]),
            Group::Messages(vec![message_entry(3, 1)]),
            Group::ContractsLatestUtxo(vec![utxo_info_entry(4, 1)]),
        )
    };
    let (a, b, c) = make();
    let (db1, r1) = import_state(Database::new(), bounds(10, 10), vec![a, b, c]);
    let (a, b, c) = make();
    let (db2, r2) = import_state(Database::new(), bounds(10, 10), vec![c, b, a]);
    assert_eq!(r1, Ok(()));
    assert_eq!(r2, Ok(()));
    assert_eq!(db1.coins.len(), db2.coins.len());
    for i in 0..db1.coins.len() {
        assert_eq!(db1.coins.entry_at(i), db2.coins.entry_at(i));
    }
    assert_eq!(db1.messages.len(), 1);
    assert_eq!(db2.messages.len(), 1);
    assert_eq!(db1.contracts_latest_utxo.entry_at(0), db2.contracts_latest_utxo.entry_at(0));
}

#[test]
fn shutdown_right_after_start_leaves_store_empty() {
    let big: Vec<_> = (0..10_000u64).map(|n| coin_entry(n, 1, n)).collect();
    let mut workers = GenesisWorkers::new(Database::new(), bounds(10, 0));
    workers.start();
    workers.shutdown();
    let mut pending = Some(Group::Coins(big));
    for i in 0..WORKER_COUNT {
        let kind = kind_at(i);
        if kind == TableKind::Coins {
            if workers.should_continue(kind) {
                workers.apply_group(pending.take().unwrap());
            }
        }
        assert!(!workers.should_continue(kind));
        workers.worker_exited(kind);
    }
    assert!(pending.is_some());
    assert!(workers.finished());
    let (db, r) = workers.finish();
    assert_eq!(r, Err(ImportError::Cancelled));
    assert!(db.is_empty());
}

#[test]
fn run_not_finished_until_every_worker_exits() {
    let mut workers = GenesisWorkers::new(Database::new(), bounds(10, 0));
    assert!(!workers.finished());
    workers.start();
    for i in 0..WORKER_COUNT - 1 {
        workers.worker_exited(kind_at(i));
        assert!(!workers.finished());
    }
    workers.worker_exited(kind_at(WORKER_COUNT - 1));
    assert!(workers.finished());
    let (db, r) = workers.finish();
    assert_eq!(r, Ok(()));
    assert!(db.is_empty());
}

#[test]
fn failed_group_stops_every_worker() {
    let mut workers = GenesisWorkers::new(Database::new(), bounds(10, 0));
    workers.start();
    assert!(workers.apply_group(Group::Coins(vec![coin_entry(1, 1, 1)])));
    assert!(!workers.apply_group(Group::Coins(vec![coin_entry(2, 11, 1)])));
    for i in 0..WORKER_COUNT {
        assert!(!workers.should_continue(kind_at(i)));
    }
    assert!(!workers.apply_group(Group::Messages(vec![message_entry(1, 0)])));
    for i in 0..WORKER_COUNT {
        workers.worker_exited(kind_at(i));
    }
    let (db, r) = workers.finish();
    assert_eq!(
        r,
        Err(ImportError::Validation { table: TableKind::Coins, height: 11, bound: 10 })
    );
    assert!(db.is_empty());
}

#[test]
fn source_failure_fails_the_run() {
    let mut workers = GenesisWorkers::new(Database::new(), bounds(10, 0));
    workers.start();
    assert!(workers.apply_group(Group::Coins(vec![coin_entry(1, 1, 1)])));
    workers.source_failed(TableKind::Messages);
    workers.source_failed(TableKind::Coins);
    for i in 0..WORKER_COUNT {
        workers.worker_exited(kind_at(i));
    }
    let (db, r) = workers.finish();
    let e = r.unwrap_err();
    assert_eq!(e, ImportError::Source { table: TableKind::Messages });
    assert_eq!(e.table(), Some(TableKind::Messages));
    assert!(db.is_empty());
}

#[test]
fn handler_carries_its_bound() {
    let b = bounds(7, 8);
    assert_eq!(Handler::new(TableKind::Coins, b), Handler::Coins { block_height: 7 });
    assert_eq!(Handler::new(TableKind::Messages, b), Handler::Messages { da_block_height: 8 });
    assert_eq!(Handler::new(TableKind::ContractsLatestUtxo, b), Handler::ContractsLatestUtxo { block_height: 7 });
    assert_eq!(Handler::new(TableKind::Transactions, b), Handler::Transactions);
    assert_eq!(ImportError::Cancelled.table(), None);
}

#[test]
fn empty_snapshot_succeeds() {
    let (db, r) = import_state(Database::new(), bounds(0, 0), vec![]);
    assert_eq!(r, Ok(()));
    assert!(db.is_empty());
    let (db, r) = import_state(db, bounds(0, 0), vec![Group::Coins(vec![])]);
    assert_eq!(r, Ok(()));
    assert!(db.is_empty());
}

#[test]
fn run_state_moves_to_running() {
    let mut workers = GenesisWorkers::new(Database::new(), bounds(0, 0));
    workers.start();
    assert!(workers.should_continue(TableKind::Transactions));
    let _ = RunState::Running;
}
