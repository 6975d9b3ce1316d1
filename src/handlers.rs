use vstd::prelude::*;
use crate::entities::{
    Coin, CompressedCoin, ContractId, ContractUtxoInfo, ContractsAssetKey, ContractsStateKey,
    GenesisBounds, ImportError, Message, Nonce, TableEntry, TableKind, TxId, UtxoId,
};
use crate::table::{has_key, reversed, upserted_all};
use crate::transaction::{StorageTransaction, Tables};

verus! {

/// Where staging a run of new pairs ends: the resulting table, or the position of the first
/// pair whose height is above the bound, or of the first whose key is already held.
pub enum Staged<K, V> {
    Done(Seq<(K, V)>),
    TooHigh(int),
    Exists(int),
}

/// Stages `items` in order onto `s`, pair `i` carrying height `heights[i]`; stops at the first
/// pair that fails.
pub open spec fn staged_inserts<K, V>(
    s: Seq<(K, V)>,
    items: Seq<(K, V)>,
    heights: Seq<u64>,
    bound: u64,
) -> Staged<K, V>
    decreases items.len(),
{
    if items.len() == 0 {
        Staged::Done(s)
    } else {
        let n = items.len() - 1;
        match staged_inserts(s, items.drop_last(), heights, bound) {
            Staged::Done(t) => if heights[n] > bound {
                Staged::TooHigh(n)
            } else if has_key(t, items[n].0) {
                Staged::Exists(n)
            } else {
                Staged::Done(t.push(items[n]))
            },
            other => other,
        }
    }
}

/// Once staging a prefix has failed, staging any longer prefix fails the same way.
pub proof fn lemma_staged_failure_persists<K, V>(
    s: Seq<(K, V)>,
    items: Seq<(K, V)>,
    heights: Seq<u64>,
    bound: u64,
    k: int,
    j: int,
)
    requires
        0 <= k <= j <= items.len(),
        !(staged_inserts(s, items.take(k), heights, bound) is Done),
    ensures
        staged_inserts(s, items.take(j), heights, bound) == staged_inserts(
            s,
            items.take(k),
            heights,
            bound,
        ),
    decreases j - k,
{
    if j > k {
        lemma_staged_failure_persists(s, items, heights, bound, k, j - 1);
        assert(items.take(j).drop_last() =~= items.take(j - 1));
    }
}

/// The outcome of staging a run of pairs, as the handler of `table` reports it.
pub open spec fn staged_result<K, V>(
    table: TableKind,
    outcome: Staged<K, V>,
    heights: Seq<u64>,
    bound: u64,
) -> Result<(), ImportError> {
    match outcome {
        Staged::Done(_) => Ok(()),
        Staged::TooHigh(i) => Err(ImportError::Validation { table, height: heights[i], bound }),
        Staged::Exists(_) => Err(ImportError::Conflict { table }),
    }
}

/// The pairs of a group, keyed as the snapshot keys them.
pub open spec fn entry_pairs<K, V>(g: Seq<TableEntry<K, V>>) -> Seq<(K, V)> {
    g.map_values(|e: TableEntry<K, V>| (e.key, e.value))
}

pub open spec fn coin_heights(g: Seq<TableEntry<UtxoId, CompressedCoin>>) -> Seq<u64> {
    g.map_values(|e: TableEntry<UtxoId, CompressedCoin>| e.value.tx_pointer.block_height as u64)
}

/// The coin that an entry describes, in the form in which it is stored.
pub open spec fn stored_coin(e: TableEntry<UtxoId, CompressedCoin>) -> CompressedCoin {
    crate::entities::compressed(
        Coin {
            utxo_id: e.key,
            owner: e.value.owner,
            amount: e.value.amount,
            asset_id: e.value.asset_id,
            tx_pointer: e.value.tx_pointer,
        },
    )
}

pub open spec fn coin_pairs(g: Seq<TableEntry<UtxoId, CompressedCoin>>) -> Seq<
    (UtxoId, CompressedCoin),
> {
    g.map_values(|e: TableEntry<UtxoId, CompressedCoin>| (e.key, stored_coin(e)))
}

/// Stages one coin: its pointer may not be above the genesis block, its identifier must be new.
pub fn init_coin(
    tx: &mut StorageTransaction,
    coin: &TableEntry<UtxoId, CompressedCoin>,
    height: u32,
) -> (r: Result<(), ImportError>)
    requires
        old(tx).wf(),
    ensures
        final(tx).wf(),
        final(tx).base() == old(tx).base(),
        coin.value.tx_pointer.block_height > height ==> r == Err::<(), ImportError>(
            ImportError::Validation {
                table: TableKind::Coins,
                height: coin.value.tx_pointer.block_height as u64,
                bound: height as u64,
            },
        ) && final(tx)@ == old(tx)@,
        coin.value.tx_pointer.block_height <= height && has_key(old(tx)@.coins, coin.key) ==> r
            == Err::<(), ImportError>(ImportError::Conflict { table: TableKind::Coins })
            && final(tx)@ == old(tx)@,
        coin.value.tx_pointer.block_height <= height && !has_key(old(tx)@.coins, coin.key) ==> r
            is Ok && final(tx)@ == (Tables {
            coins: old(tx)@.coins.push((coin.key, stored_coin(*coin))),
            ..old(tx)@
        }),
{
    let utxo_id = coin.key;
    let compressed_coin = Coin {
        utxo_id,
        owner: coin.value.owner,
        amount: coin.value.amount,
        asset_id: coin.value.asset_id,
        tx_pointer: coin.value.tx_pointer,
    }.compress();
    let coin_height = coin.value.tx_pointer.block_height;
    if coin_height > height {
        return Err(
            ImportError::Validation {
                table: TableKind::Coins,
                height: coin_height as u64,
                bound: height as u64,
            },
        );
    }
    if tx.coins.insert_if_absent(utxo_id, compressed_coin) {
        return Err(ImportError::Conflict { table: TableKind::Coins });
    }
    Ok(())
}

/// Stages a group of coins in order, stopping at the first that fails.
pub fn process_coins(
    tx: &mut StorageTransaction,
    group: Vec<TableEntry<UtxoId, CompressedCoin>>,
    height: u32,
) -> (r: Result<(), ImportError>)
    requires
        old(tx).wf(),
    ensures
        final(tx).wf(),
        final(tx).base() == old(tx).base(),
        ({
            let outcome = staged_inserts(
                old(tx)@.coins,
                coin_pairs(group@),
                coin_heights(group@),
                height as u64,
            );
            &&& r == staged_result(TableKind::Coins, outcome, coin_heights(group@), height as u64)
            &&& outcome matches Staged::Done(t) ==> final(tx)@ == (Tables { coins: t, ..old(tx)@ })
        }),
{
    let ghost g = group@;
    let ghost s0 = tx@;
    let ghost b0 = tx.base();
    let ghost items = coin_pairs(g);
    let ghost heights = coin_heights(g);
    let n = group.len();
    let mut rest = reversed(group);
    let mut k: usize = 0;
    assert(items.take(0) =~= Seq::<(UtxoId, CompressedCoin)>::empty());
    while k < n
        invariant
            n == g.len(),
            s0 == old(tx)@,
            b0 == old(tx).base(),
            g == group@,
            items == coin_pairs(g),
            heights == coin_heights(g),
            items.len() == n,
            heights.len() == n,
            k <= n,
            rest@.len() == n - k,
            forall|i: int| 0 <= i < n - k ==> rest@[i] == g[n - 1 - i],
            tx.wf(),
            tx.base() == b0,
            staged_inserts(s0.coins, items.take(k as int), heights, height as u64) matches Staged::Done(
                t,
            ) && tx@ == (Tables { coins: t, ..s0 }),
        decreases n - k,
    {
        let coin = rest.pop().unwrap();
        assert(coin == g[k as int]);
        assert(items.take(k + 1).drop_last() =~= items.take(k as int));
        assert(items[k as int] == (coin.key, stored_coin(coin)));
        assert(items.take(k + 1)[k as int] == (coin.key, stored_coin(coin)));
        assert(heights[k as int] == coin.value.tx_pointer.block_height as u64);
        let res = init_coin(tx, &coin, height);
        if res.is_err() {
            proof {
                assert(tx.base() == b0);
                lemma_staged_failure_persists(
                    s0.coins,
                    items,
                    heights,
                    height as u64,
                    k + 1,
                    n as int,
                );
                assert(items.take(n as int) =~= items);
            }
            return res;
        }
        k += 1;
    }
    assert(items.take(n as int) =~= items);
    Ok(())
}


pub open spec fn message_pairs(g: Seq<TableEntry<Nonce, Message>>) -> Seq<(Nonce, Message)> {
    g.map_values(|e: TableEntry<Nonce, Message>| (e.value.nonce, e.value))
}

pub open spec fn message_heights(g: Seq<TableEntry<Nonce, Message>>) -> Seq<u64> {
    g.map_values(|e: TableEntry<Nonce, Message>| e.value.da_height)
}

/// Heights for entries that carry none: every one is within any bound.
pub open spec fn no_heights<K, V>(g: Seq<TableEntry<K, V>>) -> Seq<u64> {
    g.map_values(|e: TableEntry<K, V>| 0u64)
}

pub open spec fn utxo_heights(g: Seq<TableEntry<ContractId, ContractUtxoInfo>>) -> Seq<u64> {
    g.map_values(
        |e: TableEntry<ContractId, ContractUtxoInfo>| e.value.tx_pointer.block_height as u64,
    )
}

/// Stages one message, keyed by its nonce: its height on the external chain may not be above
/// the genesis bound, its nonce must be new.
pub fn init_da_message(
    tx: &mut StorageTransaction,
    msg: TableEntry<Nonce, Message>,
    da_height: u64,
) -> (r: Result<(), ImportError>)
    requires
        old(tx).wf(),
    ensures
        final(tx).wf(),
        final(tx).base() == old(tx).base(),
        msg.value.da_height > da_height ==> r == Err::<(), ImportError>(
            ImportError::Validation {
                table: TableKind::Messages,
                height: msg.value.da_height,
                bound: da_height,
            },
        ) && final(tx)@ == old(tx)@,
        msg.value.da_height <= da_height && has_key(old(tx)@.messages, msg.value.nonce) ==> r
            == Err::<(), ImportError>(ImportError::Conflict { table: TableKind::Messages })
            && final(tx)@ == old(tx)@,
        msg.value.da_height <= da_height && !has_key(old(tx)@.messages, msg.value.nonce) ==> r
            is Ok && final(tx)@ == (Tables {
            messages: old(tx)@.messages.push((msg.value.nonce, msg.value)),
            ..old(tx)@
        }),
{
    let message = msg.value;
    if message.da_height > da_height {
        return Err(
            ImportError::Validation {
                table: TableKind::Messages,
                height: message.da_height,
                bound: da_height,
            },
        );
    }
    let id = *message.id();
    if tx.messages.insert_if_absent(id, message) {
        return Err(ImportError::Conflict { table: TableKind::Messages });
    }
    Ok(())
}

/// Stages one contract's code: the contract must be new.
pub fn init_contract_raw_code(
    tx: &mut StorageTransaction,
    entry: TableEntry<ContractId, Vec<u8>>,
) -> (r: Result<(), ImportError>)
    requires
        old(tx).wf(),
    ensures
        final(tx).wf(),
        final(tx).base() == old(tx).base(),
        has_key(old(tx)@.contracts_raw_code, entry.key) ==> r == Err::<(), ImportError>(
            ImportError::Conflict { table: TableKind::ContractsRawCode },
        ) && final(tx)@ == old(tx)@,
        !has_key(old(tx)@.contracts_raw_code, entry.key) ==> r is Ok && final(tx)@ == (Tables {
            contracts_raw_code: old(tx)@.contracts_raw_code.push((entry.key, entry.value)),
            ..old(tx)@
        }),
{
    let contract_id = entry.key;
    if tx.contracts_raw_code.insert_if_absent(contract_id, entry.value) {
        return Err(ImportError::Conflict { table: TableKind::ContractsRawCode });
    }
    Ok(())
}

/// Stages one contract's latest output: its pointer may not be above the genesis block, the
/// contract must be new.
pub fn init_contract_latest_utxo(
    tx: &mut StorageTransaction,
    entry: &TableEntry<ContractId, ContractUtxoInfo>,
    height: u32,
) -> (r: Result<(), ImportError>)
    requires
        old(tx).wf(),
    ensures
        final(tx).wf(),
        final(tx).base() == old(tx).base(),
        entry.value.tx_pointer.block_height > height ==> r == Err::<(), ImportError>(
            ImportError::Validation {
                table: TableKind::ContractsLatestUtxo,
                height: entry.value.tx_pointer.block_height as u64,
                bound: height as u64,
            },
        ) && final(tx)@ == old(tx)@,
        entry.value.tx_pointer.block_height <= height && has_key(
            old(tx)@.contracts_latest_utxo,
            entry.key,
        ) ==> r == Err::<(), ImportError>(
            ImportError::Conflict { table: TableKind::ContractsLatestUtxo },
        ) && final(tx)@ == old(tx)@,
        entry.value.tx_pointer.block_height <= height && !has_key(
            old(tx)@.contracts_latest_utxo,
            entry.key,
        ) ==> r is Ok && final(tx)@ == (Tables {
            contracts_latest_utxo: old(tx)@.contracts_latest_utxo.push((entry.key, entry.value)),
            ..old(tx)@
        }),
{
    let contract_id = entry.key;
    let utxo_height = entry.value.tx_pointer.block_height;
    if utxo_height > height {
        return Err(
            ImportError::Validation {
                table: TableKind::ContractsLatestUtxo,
                height: utxo_height as u64,
                bound: height as u64,
            },
        );
    }
    if tx.contracts_latest_utxo.insert_if_absent(contract_id, entry.value) {
        return Err(ImportError::Conflict { table: TableKind::ContractsLatestUtxo });
    }
    Ok(())
}

/// Stages a group of messages in order, stopping at the first that fails.
pub fn process_messages(
    tx: &mut StorageTransaction,
    group: Vec<TableEntry<Nonce, Message>>,
    da_height: u64,
) -> (r: Result<(), ImportError>)
    requires
        old(tx).wf(),
    ensures
        final(tx).wf(),
        final(tx).base() == old(tx).base(),
        ({
            let outcome = staged_inserts(
                old(tx)@.messages,
                message_pairs(group@),
                message_heights(group@),
                da_height,
            );
            &&& r == staged_result(TableKind::Messages, outcome, message_heights(group@), da_height)
            &&& outcome matches Staged::Done(t) ==> final(tx)@ == (Tables { messages: t, ..old(tx)@ })
        }),
{
    let ghost g = group@;
    let ghost s0 = tx@;
    let ghost b0 = tx.base();
    let ghost items = message_pairs(g);
    let ghost heights = message_heights(g);
    let n = group.len();
    let mut rest = reversed(group);
    let mut k: usize = 0;
    assert(items.take(0) =~= Seq::<(Nonce, Message)>::empty());
    while k < n
        invariant
            n == g.len(),
            s0 == old(tx)@,
            b0 == old(tx).base(),
            g == group@,
            items == message_pairs(g),
            heights == message_heights(g),
            items.len() == n,
            heights.len() == n,
            k <= n,
            rest@.len() == n - k,
            forall|i: int| 0 <= i < n - k ==> rest@[i] == g[n - 1 - i],
            tx.wf(),
            tx.base() == b0,
            staged_inserts(s0.messages, items.take(k as int), heights, da_height) matches Staged::Done(
                t,
            ) && tx@ == (Tables { messages: t, ..s0 }),
        decreases n - k,
    {
        let entry = rest.pop().unwrap();
        assert(entry == g[k as int]);
        assert(items.take(k + 1).drop_last() =~= items.take(k as int));
        assert(items[k as int] == (entry.value.nonce, entry.value));
        assert(items.take(k + 1)[k as int] == (entry.value.nonce, entry.value));
        assert(heights[k as int] == entry.value.da_height);
        let res = init_da_message(tx, entry, da_height);
        if res.is_err() {
            proof {
                assert(tx.base() == b0);
                lemma_staged_failure_persists(
                    s0.messages,
                    items,
                    heights,
                    da_height,
                    k + 1,
                    n as int,
                );
                assert(items.take(n as int) =~= items);
            }
            return res;
        }
        k += 1;
    }
    assert(items.take(n as int) =~= items);
    Ok(())
}

/// Stages a group of contract codes in order, stopping at the first that fails.
pub fn process_contracts_raw_code(
    tx: &mut StorageTransaction,
    group: Vec<TableEntry<ContractId, Vec<u8>>>,
) -> (r: Result<(), ImportError>)
    requires
        old(tx).wf(),
    ensures
        final(tx).wf(),
        final(tx).base() == old(tx).base(),
        ({
            let outcome = staged_inserts(
                old(tx)@.contracts_raw_code,
                entry_pairs(group@),
                no_heights(group@),
                0u64,
            );
            &&& r == staged_result(TableKind::ContractsRawCode, outcome, no_heights(group@), 0u64)
            &&& outcome matches Staged::Done(t) ==> final(tx)@ == (Tables { contracts_raw_code: t, ..old(tx)@ })
        }),
{
    let ghost g = group@;
    let ghost s0 = tx@;
    let ghost b0 = tx.base();
    let ghost items = entry_pairs(g);
    let ghost heights = no_heights(g);
    let n = group.len();
    let mut rest = reversed(group);
    let mut k: usize = 0;
    assert(items.take(0) =~= Seq::<(ContractId, Vec<u8>)>::empty());
    while k < n
        invariant
            n == g.len(),
            s0 == old(tx)@,
            b0 == old(tx).base(),
            g == group@,
            items == entry_pairs(g),
            heights == no_heights(g),
            items.len() == n,
            heights.len() == n,
            k <= n,
            rest@.len() == n - k,
            forall|i: int| 0 <= i < n - k ==> rest@[i] == g[n - 1 - i],
            tx.wf(),
            tx.base() == b0,
            staged_inserts(s0.contracts_raw_code, items.take(k as int), heights, 0u64) matches Staged::Done(
                t,
            ) && tx@ == (Tables { contracts_raw_code: t, ..s0 }),
        decreases n - k,
    {
        let entry = rest.pop().unwrap();
        assert(entry == g[k as int]);
        assert(items.take(k + 1).drop_last() =~= items.take(k as int));
        assert(items[k as int] == (entry.key, entry.value));
        assert(items.take(k + 1)[k as int] == (entry.key, entry.value));
        assert(heights[k as int] == 0u64);
        let res = init_contract_raw_code(tx, entry);
        if res.is_err() {
            proof {
                assert(tx.base() == b0);
                lemma_staged_failure_persists(
                    s0.contracts_raw_code,
                    items,
                    heights,
                    0u64,
                    k + 1,
                    n as int,
                );
                assert(items.take(n as int) =~= items);
            }
            return res;
        }
        k += 1;
    }
    assert(items.take(n as int) =~= items);
    Ok(())
}

/// Stages a group of contract outputs in order, stopping at the first that fails.
pub fn process_contracts_latest_utxo(
    tx: &mut StorageTransaction,
    group: Vec<TableEntry<ContractId, ContractUtxoInfo>>,
    height: u32,
) -> (r: Result<(), ImportError>)
    requires
        old(tx).wf(),
    ensures
        final(tx).wf(),
        final(tx).base() == old(tx).base(),
        ({
            let outcome = staged_inserts(
                old(tx)@.contracts_latest_utxo,
                entry_pairs(group@),
                utxo_heights(group@),
                height as u64,
            );
            &&& r == staged_result(TableKind::ContractsLatestUtxo, outcome, utxo_heights(group@), height as u64)
            &&& outcome matches Staged::Done(t) ==> final(tx)@ == (Tables { contracts_latest_utxo: t, ..old(tx)@ })
        }),
{
    let ghost g = group@;
    let ghost s0 = tx@;
    let ghost b0 = tx.base();
    let ghost items = entry_pairs(g);
    let ghost heights = utxo_heights(g);
    let n = group.len();
    let mut rest = reversed(group);
    let mut k: usize = 0;
    assert(items.take(0) =~= Seq::<(ContractId, ContractUtxoInfo)>::empty());
    while k < n
        invariant
            n == g.len(),
            s0 == old(tx)@,
            b0 == old(tx).base(),
            g == group@,
            items == entry_pairs(g),
            heights == utxo_heights(g),
            items.len() == n,
            heights.len() == n,
            k <= n,
            rest@.len() == n - k,
            forall|i: int| 0 <= i < n - k ==> rest@[i] == g[n - 1 - i],
            tx.wf(),
            tx.base() == b0,
            staged_inserts(s0.contracts_latest_utxo, items.take(k as int), heights, height as u64) matches Staged::Done(
                t,
            ) && tx@ == (Tables { contracts_latest_utxo: t, ..s0 }),
        decreases n - k,
    {
        let entry = rest.pop().unwrap();
        assert(entry == g[k as int]);
        assert(items.take(k + 1).drop_last() =~= items.take(k as int));
        assert(items[k as int] == (entry.key, entry.value));
        assert(items.take(k + 1)[k as int] == (entry.key, entry.value));
        assert(heights[k as int] == entry.value.tx_pointer.block_height as u64);
        let res = init_contract_latest_utxo(tx, &entry, height);
        if res.is_err() {
            proof {
                assert(tx.base() == b0);
                lemma_staged_failure_persists(
                    s0.contracts_latest_utxo,
                    items,
                    heights,
                    height as u64,
                    k + 1,
                    n as int,
                );
                assert(items.take(n as int) =~= items);
            }
            return res;
        }
        k += 1;
    }
    assert(items.take(n as int) =~= items);
    Ok(())
}


/// Stores a group of contract storage slots, each replacing what its key held.
pub fn process_contracts_state(tx: &mut StorageTransaction, group: Vec<TableEntry<ContractsStateKey, Vec<u8>>>)
    requires
        old(tx).wf(),
    ensures
        final(tx).wf(),
        final(tx).base() == old(tx).base(),
        final(tx)@ == (Tables {
            contracts_state: upserted_all(old(tx)@.contracts_state, entry_pairs(group@)),
            ..old(tx)@
        }),
{
    let ghost g = group@;
    let ghost items = entry_pairs(g);
    let n = group.len();
    let mut rest = reversed(group);
    let mut k: usize = 0;
    assert(items.take(0) =~= Seq::<(ContractsStateKey, Vec<u8>)>::empty());
    while k < n
        invariant
            n == g.len(),
            items == entry_pairs(g),
            items.len() == n,
            k <= n,
            rest@.len() == n - k,
            forall|i: int| 0 <= i < n - k ==> rest@[i] == g[n - 1 - i],
            tx.wf(),
            tx.base() == old(tx).base(),
            tx@ == (Tables { contracts_state: upserted_all(old(tx)@.contracts_state, items.take(k as int)), ..old(tx)@ }),
        decreases n - k,
    {
        let entry = rest.pop().unwrap();
        assert(entry == g[k as int]);
        assert(items.take(k + 1).drop_last() =~= items.take(k as int));
        assert(items.take(k + 1).last() == (entry.key, entry.value));
        tx.contracts_state.merge(entry.key, entry.value);
        k += 1;
    }
    assert(items.take(n as int) =~= items);
}

/// Stores a group of contract balances, each replacing what its key held.
pub fn process_contracts_assets(tx: &mut StorageTransaction, group: Vec<TableEntry<ContractsAssetKey, u64>>)
    requires
        old(tx).wf(),
    ensures
        final(tx).wf(),
        final(tx).base() == old(tx).base(),
        final(tx)@ == (Tables {
            contracts_assets: upserted_all(old(tx)@.contracts_assets, entry_pairs(group@)),
            ..old(tx)@
        }),
{
    let ghost g = group@;
    let ghost items = entry_pairs(g);
    let n = group.len();
    let mut rest = reversed(group);
    let mut k: usize = 0;
    assert(items.take(0) =~= Seq::<(ContractsAssetKey, u64)>::empty());
    while k < n
        invariant
            n == g.len(),
            items == entry_pairs(g),
            items.len() == n,
            k <= n,
            rest@.len() == n - k,
            forall|i: int| 0 <= i < n - k ==> rest@[i] == g[n - 1 - i],
            tx.wf(),
            tx.base() == old(tx).base(),
            tx@ == (Tables { contracts_assets: upserted_all(old(tx)@.contracts_assets, items.take(k as int)), ..old(tx)@ }),
        decreases n - k,
    {
        let entry = rest.pop().unwrap();
        assert(entry == g[k as int]);
        assert(items.take(k + 1).drop_last() =~= items.take(k as int));
        assert(items.take(k + 1).last() == (entry.key, entry.value));
        tx.contracts_assets.merge(entry.key, entry.value);
        k += 1;
    }
    assert(items.take(n as int) =~= items);
}

/// Stores a group of transactions under their identifiers.
pub fn process_transactions(tx: &mut StorageTransaction, group: Vec<TableEntry<TxId, Vec<u8>>>)
    requires
        old(tx).wf(),
    ensures
        final(tx).wf(),
        final(tx).base() == old(tx).base(),
        final(tx)@ == (Tables {
            transactions: upserted_all(old(tx)@.transactions, entry_pairs(group@)),
            ..old(tx)@
        }),
{
    let ghost g = group@;
    let ghost items = entry_pairs(g);
    let n = group.len();
    let mut rest = reversed(group);
    let mut k: usize = 0;
    assert(items.take(0) =~= Seq::<(TxId, Vec<u8>)>::empty());
    while k < n
        invariant
            n == g.len(),
            items == entry_pairs(g),
            items.len() == n,
            k <= n,
            rest@.len() == n - k,
            forall|i: int| 0 <= i < n - k ==> rest@[i] == g[n - 1 - i],
            tx.wf(),
            tx.base() == old(tx).base(),
            tx@ == (Tables { transactions: upserted_all(old(tx)@.transactions, items.take(k as int)), ..old(tx)@ }),
        decreases n - k,
    {
        let entry = rest.pop().unwrap();
        assert(entry == g[k as int]);
        assert(items.take(k + 1).drop_last() =~= items.take(k as int));
        assert(items.take(k + 1).last() == (entry.key, entry.value));
        tx.transactions.merge(entry.key, entry.value);
        k += 1;
    }
    assert(items.take(n as int) =~= items);
}

/// A batch of entries of one table kind, in the order the snapshot gives them.
pub enum Group {
    Coins(Vec<TableEntry<UtxoId, CompressedCoin>>),
    Messages(Vec<TableEntry<Nonce, Message>>),
    ContractsRawCode(Vec<TableEntry<ContractId, Vec<u8>>>),
    ContractsLatestUtxo(Vec<TableEntry<ContractId, ContractUtxoInfo>>),
    ContractsState(Vec<TableEntry<ContractsStateKey, Vec<u8>>>),
    ContractsAssets(Vec<TableEntry<ContractsAssetKey, u64>>),
    Transactions(Vec<TableEntry<TxId, Vec<u8>>>),
}

impl Group {
    pub open spec fn kind_of(&self) -> TableKind {
        match self {
            Group::Coins(_) => TableKind::Coins,
            Group::Messages(_) => TableKind::Messages,
            Group::ContractsRawCode(_) => TableKind::ContractsRawCode,
            Group::ContractsLatestUtxo(_) => TableKind::ContractsLatestUtxo,
            Group::ContractsState(_) => TableKind::ContractsState,
            Group::ContractsAssets(_) => TableKind::ContractsAssets,
            Group::Transactions(_) => TableKind::Transactions,
        }
    }

    /// The kind of table whose entries the group holds.
    pub fn kind(&self) -> (r: TableKind)
        ensures
            r == self.kind_of(),
    {
        match self {
            Group::Coins(_) => TableKind::Coins,
            Group::Messages(_) => TableKind::Messages,
            Group::ContractsRawCode(_) => TableKind::ContractsRawCode,
            Group::ContractsLatestUtxo(_) => TableKind::ContractsLatestUtxo,
            Group::ContractsState(_) => TableKind::ContractsState,
            Group::ContractsAssets(_) => TableKind::ContractsAssets,
            Group::Transactions(_) => TableKind::Transactions,
        }
    }
}

/// The store after staging, or the error that staging `table` ended with.
pub open spec fn lifted<K, V>(
    table: TableKind,
    outcome: Staged<K, V>,
    heights: Seq<u64>,
    bound: u64,
    put: spec_fn(Seq<(K, V)>) -> Tables,
) -> Result<Tables, ImportError> {
    match outcome {
        Staged::Done(t) => Ok(put(t)),
        Staged::TooHigh(i) => Err(ImportError::Validation { table, height: heights[i], bound }),
        Staged::Exists(_) => Err(ImportError::Conflict { table }),
    }
}

/// Validates and stages the groups of one table kind; each variant carries the bound that
/// its kind is checked against.
#[derive(Clone, Copy, Debug, PartialEq, Eq, Structural)]
pub enum Handler {
    Coins { block_height: u32 },
    Messages { da_block_height: u64 },
    ContractsRawCode,
    ContractsLatestUtxo { block_height: u32 },
    ContractsState,
    ContractsAssets,
    Transactions,
}

impl Handler {
    pub open spec fn kind_of(&self) -> TableKind {
        match self {
            Handler::Coins { .. } => TableKind::Coins,
            Handler::Messages { .. } => TableKind::Messages,
            Handler::ContractsRawCode => TableKind::ContractsRawCode,
            Handler::ContractsLatestUtxo { .. } => TableKind::ContractsLatestUtxo,
            Handler::ContractsState => TableKind::ContractsState,
            Handler::ContractsAssets => TableKind::ContractsAssets,
            Handler::Transactions => TableKind::Transactions,
        }
    }

    pub open spec fn for_kind(kind: TableKind, bounds: GenesisBounds) -> Handler {
        match kind {
            TableKind::Coins => Handler::Coins { block_height: bounds.block_height },
            TableKind::Messages => Handler::Messages { da_block_height: bounds.da_block_height },
            TableKind::ContractsRawCode => Handler::ContractsRawCode,
            TableKind::ContractsLatestUtxo => Handler::ContractsLatestUtxo {
                block_height: bounds.block_height,
            },
            TableKind::ContractsState => Handler::ContractsState,
            TableKind::ContractsAssets => Handler::ContractsAssets,
            TableKind::Transactions => Handler::Transactions,
        }
    }

    /// The handler of `kind`, with the bound from `bounds` that the kind is checked against.
    pub fn new(kind: TableKind, bounds: GenesisBounds) -> (r: Handler)
        ensures
            r == Handler::for_kind(kind, bounds),
            r.kind_of() == kind,
    {
        match kind {
            TableKind::Coins => Handler::Coins { block_height: bounds.block_height },
            TableKind::Messages => Handler::Messages { da_block_height: bounds.da_block_height },
            TableKind::ContractsRawCode => Handler::ContractsRawCode,
            TableKind::ContractsLatestUtxo => Handler::ContractsLatestUtxo {
                block_height: bounds.block_height,
            },
            TableKind::ContractsState => Handler::ContractsState,
            TableKind::ContractsAssets => Handler::ContractsAssets,
            TableKind::Transactions => Handler::Transactions,
        }
    }

    /// What processing `g` on a store holding `t` gives: the store with the group staged, or
    /// the error of its first failing entry.
    pub open spec fn applied(&self, t: Tables, g: Group) -> Result<Tables, ImportError> {
        match (*self, g) {
            (Handler::Coins { block_height }, Group::Coins(v)) => lifted(
                TableKind::Coins,
                staged_inserts(t.coins, coin_pairs(v@), coin_heights(v@), block_height as u64),
                coin_heights(v@),
                block_height as u64,
                |c: Seq<(UtxoId, CompressedCoin)>| Tables { coins: c, ..t },
            ),
            (Handler::Messages { da_block_height }, Group::Messages(v)) => lifted(
                TableKind::Messages,
                staged_inserts(t.messages, message_pairs(v@), message_heights(v@), da_block_height),
                message_heights(v@),
                da_block_height,
                |c: Seq<(Nonce, Message)>| Tables { messages: c, ..t },
            ),
            (Handler::ContractsRawCode, Group::ContractsRawCode(v)) => lifted(
                TableKind::ContractsRawCode,
                staged_inserts(t.contracts_raw_code, entry_pairs(v@), no_heights(v@), 0u64),
                no_heights(v@),
                0u64,
                |c: Seq<(ContractId, Vec<u8>)>| Tables { contracts_raw_code: c, ..t },
            ),
            (Handler::ContractsLatestUtxo { block_height }, Group::ContractsLatestUtxo(v)) => lifted(
                TableKind::ContractsLatestUtxo,
                staged_inserts(
                    t.contracts_latest_utxo,
                    entry_pairs(v@),
                    utxo_heights(v@),
                    block_height as u64,
                ),
                utxo_heights(v@),
                block_height as u64,
                |c: Seq<(ContractId, ContractUtxoInfo)>| Tables { contracts_latest_utxo: c, ..t },
            ),
            (Handler::ContractsState, Group::ContractsState(v)) => Ok(
                Tables { contracts_state: upserted_all(t.contracts_state, entry_pairs(v@)), ..t },
            ),
            (Handler::ContractsAssets, Group::ContractsAssets(v)) => Ok(
                Tables { contracts_assets: upserted_all(t.contracts_assets, entry_pairs(v@)), ..t },
            ),
            (Handler::Transactions, Group::Transactions(v)) => Ok(
                Tables { transactions: upserted_all(t.transactions, entry_pairs(v@)), ..t },
            ),
            _ => Ok(t),
        }
    }

    /// Validates and stages a group of the handler's kind, stopping at the first entry that
    /// fails; what was staged before it stays in the transaction.
    pub fn process(&self, group: Group, tx: &mut StorageTransaction) -> (r: Result<(), ImportError>)
        requires
            old(tx).wf(),
            group.kind_of() == self.kind_of(),
        ensures
            final(tx).wf(),
            final(tx).base() == old(tx).base(),
            match self.applied(old(tx)@, group) {
                Ok(t) => r is Ok && final(tx)@ == t,
                Err(e) => r == Err::<(), ImportError>(e),
            },
    {
        match group {
            Group::Coins(v) => match self {
                Handler::Coins { block_height } => process_coins(tx, v, *block_height),
                _ => Ok(()),
            },
            Group::Messages(v) => match self {
                Handler::Messages { da_block_height } => process_messages(tx, v, *da_block_height),
                _ => Ok(()),
            },
            Group::ContractsRawCode(v) => process_contracts_raw_code(tx, v),
            Group::ContractsLatestUtxo(v) => match self {
                Handler::ContractsLatestUtxo { block_height } => process_contracts_latest_utxo(
                    tx,
                    v,
                    *block_height,
                ),
                _ => Ok(()),
            },
            Group::ContractsState(v) => {
                process_contracts_state(tx, v);
                Ok(())
            },
            Group::ContractsAssets(v) => {
                process_contracts_assets(tx, v);
                Ok(())
            },
            Group::Transactions(v) => {
                process_transactions(tx, v);
                Ok(())
            },
        }
    }
}

} // verus!
