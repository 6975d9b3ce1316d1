use vstd::prelude::*;
use crate::entities::{
    CompressedCoin, ContractId, ContractUtxoInfo, ContractsAssetKey, ContractsStateKey, Message,
    Nonce, TxId, UtxoId,
};
use crate::table::{
    has_key, keys_unique, lemma_concat_unique, reversed, upserted, upserted_all, Table,
    TableKey,
};

verus! {

/// A table of the store under a transaction whose writes add keys that are new.
pub struct InsertTable<K, V> {
    base: Table<K, V>,
    staged: Table<K, V>,
}

impl<K: TableKey, V> InsertTable<K, V> {
    /// What the table holds within the transaction.
    pub closed spec fn view(&self) -> Seq<(K, V)> {
        self.base@ + self.staged@
    }

    /// What the table held when the transaction began.
    pub closed spec fn base(&self) -> Seq<(K, V)> {
        self.base@
    }

    pub closed spec fn wf(&self) -> bool {
        keys_unique(self.base@ + self.staged@)
    }

    pub fn begin(base: Table<K, V>) -> (r: Self)
        requires
            base.wf(),
        ensures
            r.wf(),
            r.view() == base@,
            r.base() == base@,
    {
        assert(base@ + Seq::<(K, V)>::empty() =~= base@);
        InsertTable { base, staged: Table::new() }
    }

    /// Stores `v` under `k` if the table does not hold `k`; tells whether it did.
    pub fn insert_if_absent(&mut self, k: K, v: V) -> (existed: bool)
        requires
            old(self).wf(),
        ensures
            final(self).wf(),
            final(self).base() == old(self).base(),
            existed == has_key(old(self).view(), k),
            existed ==> final(self).view() == old(self).view(),
            !existed ==> final(self).view() == old(self).view().push((k, v)),
    {
        let ghost all = self.base@ + self.staged@;
        proof {
            assert forall|i: int| 0 <= i < self.base@.len() implies all[i] == self.base@[i] by {}
            assert forall|i: int| 0 <= i < self.staged@.len() implies all[self.base@.len() + i]
                == self.staged@[i] by {}
            lemma_concat_unique(self.base@, self.staged@);
            if has_key(all, k) {
                let i = choose|i: int| 0 <= i < all.len() && (#[trigger] all[i]).0 == k;
                if i < self.base@.len() {
                    assert(self.base@[i].0 == k);
                } else {
                    assert(self.staged@[i - self.base@.len()].0 == k);
                }
            }
        }
        if self.base.contains_key(&k) {
            proof {
                let i = choose|i: int| 0 <= i < self.base@.len() && (#[trigger] self.base@[i]).0 == k;
                assert(all[i].0 == k);
            }
            return true;
        }
        if self.staged.contains_key(&k) {
            proof {
                let i = choose|i: int|
                    0 <= i < self.staged@.len() && (#[trigger] self.staged@[i]).0 == k;
                assert(all[self.base@.len() + i].0 == k);
            }
            return true;
        }
        proof {
            crate::table::lemma_push_unique(all, k, v);
            assert(all.push((k, v)) =~= self.base@ + self.staged@.push((k, v)));
        }
        self.staged.insert_new(k, v);
        false
    }

    /// The table with the transaction's writes in it.
    pub fn commit(self) -> (r: Table<K, V>)
        requires
            self.wf(),
        ensures
            r.wf(),
            r@ == self.view(),
    {
        let mut base = self.base;
        base.append(self.staged);
        base
    }

    /// The table as it was when the transaction began.
    pub fn discard(self) -> (r: Table<K, V>)
        requires
            self.wf(),
        ensures
            r.wf(),
            r@ == self.base(),
    {
        proof {
            lemma_concat_unique(self.base@, self.staged@);
        }
        self.base
    }
}

/// A table of the store under a transaction whose writes replace what a key held.
pub struct MergeTable<K, V> {
    base: Table<K, V>,
    log: Vec<(K, V)>,
}

impl<K: TableKey, V> MergeTable<K, V> {
    /// What the table holds within the transaction.
    pub closed spec fn view(&self) -> Seq<(K, V)> {
        upserted_all(self.base@, self.log@)
    }

    /// What the table held when the transaction began.
    pub closed spec fn base(&self) -> Seq<(K, V)> {
        self.base@
    }

    pub closed spec fn wf(&self) -> bool {
        self.base.wf()
    }

    pub fn begin(base: Table<K, V>) -> (r: Self)
        requires
            base.wf(),
        ensures
            r.wf(),
            r.view() == base@,
            r.base() == base@,
    {
        MergeTable { base, log: Vec::new() }
    }

    /// Stores `v` under `k`, replacing what the table held there.
    pub fn merge(&mut self, k: K, v: V)
        requires
            old(self).wf(),
        ensures
            final(self).wf(),
            final(self).base() == old(self).base(),
            final(self).view() == upserted(old(self).view(), k, v),
    {
        let ghost old_log = self.log@;
        self.log.push((k, v));
        assert(self.log@.drop_last() =~= old_log);
    }

    /// The table with the transaction's writes in it.
    pub fn commit(self) -> (r: Table<K, V>)
        requires
            self.wf(),
        ensures
            r.wf(),
            r@ == self.view(),
    {
        let ghost log = self.log@;
        let n = self.log.len();
        let mut base = self.base;
        let ghost b0 = base@;
        let mut rest = reversed(self.log);
        let mut k: usize = 0;
        while k < n
            invariant
                n == log.len(),
                k <= n,
                rest@.len() == n - k,
                forall|i: int| 0 <= i < n - k ==> rest@[i] == log[n - 1 - i],
                base.wf(),
                base@ == upserted_all(b0, log.subrange(0, k as int)),
            decreases n - k,
        {
            let (key, val) = rest.pop().unwrap();
            proof {
                assert(log.subrange(0, k + 1).drop_last() =~= log.subrange(0, k as int));
            }
            base.upsert(key, val);
            k += 1;
        }
        assert(log.subrange(0, n as int) =~= log);
        base
    }

    /// The table as it was when the transaction began.
    pub fn discard(self) -> (r: Table<K, V>)
        requires
            self.wf(),
        ensures
            r.wf(),
            r@ == self.base(),
    {
        self.base
    }
}

/// What the seven tables of the store hold, in order of insertion.
pub struct Tables {
    pub coins: Seq<(UtxoId, CompressedCoin)>,
    pub messages: Seq<(Nonce, Message)>,
    pub contracts_raw_code: Seq<(ContractId, Vec<u8>)>,
    pub contracts_latest_utxo: Seq<(ContractId, ContractUtxoInfo)>,
    pub contracts_state: Seq<(ContractsStateKey, Vec<u8>)>,
    pub contracts_assets: Seq<(ContractsAssetKey, u64)>,
    pub transactions: Seq<(TxId, Vec<u8>)>,
}

impl Tables {
    pub open spec fn is_empty(self) -> bool {
        &&& self.coins.len() == 0
        &&& self.messages.len() == 0
        &&& self.contracts_raw_code.len() == 0
        &&& self.contracts_latest_utxo.len() == 0
        &&& self.contracts_state.len() == 0
        &&& self.contracts_assets.len() == 0
        &&& self.transactions.len() == 0
    }
}

/// The node's store: one table per kind of genesis state.
pub struct Database {
    pub coins: Table<UtxoId, CompressedCoin>,
    pub messages: Table<Nonce, Message>,
    pub contracts_raw_code: Table<ContractId, Vec<u8>>,
    pub contracts_latest_utxo: Table<ContractId, ContractUtxoInfo>,
    pub contracts_state: Table<ContractsStateKey, Vec<u8>>,
    pub contracts_assets: Table<ContractsAssetKey, u64>,
    pub transactions: Table<TxId, Vec<u8>>,
}

impl View for Database {
    type V = Tables;

    open spec fn view(&self) -> Tables {
        Tables {
            coins: self.coins@,
            messages: self.messages@,
            contracts_raw_code: self.contracts_raw_code@,
            contracts_latest_utxo: self.contracts_latest_utxo@,
            contracts_state: self.contracts_state@,
            contracts_assets: self.contracts_assets@,
            transactions: self.transactions@,
        }
    }
}

impl Database {
    pub open spec fn wf(&self) -> bool {
        &&& self.coins.wf()
        &&& self.messages.wf()
        &&& self.contracts_raw_code.wf()
        &&& self.contracts_latest_utxo.wf()
        &&& self.contracts_state.wf()
        &&& self.contracts_assets.wf()
        &&& self.transactions.wf()
    }

    /// A store with nothing in it.
    pub fn new() -> (r: Database)
        ensures
            r.wf(),
            r@.is_empty(),
    {
        Database {
            coins: Table::new(),
            messages: Table::new(),
            contracts_raw_code: Table::new(),
            contracts_latest_utxo: Table::new(),
            contracts_state: Table::new(),
            contracts_assets: Table::new(),
            transactions: Table::new(),
        }
    }

    /// Whether no table holds anything.
    pub fn is_empty(&self) -> (r: bool)
        ensures
            r == self@.is_empty(),
    {
        self.coins.len() == 0 && self.messages.len() == 0 && self.contracts_raw_code.len() == 0
            && self.contracts_latest_utxo.len() == 0 && self.contracts_state.len() == 0
            && self.contracts_assets.len() == 0 && self.transactions.len() == 0
    }

    /// Opens a transaction over the store.
    pub fn transaction(self) -> (r: StorageTransaction)
        requires
            self.wf(),
        ensures
            r.wf(),
            r@ == self@,
            r.base() == self@,
    {
        StorageTransaction {
            coins: InsertTable::begin(self.coins),
            messages: InsertTable::begin(self.messages),
            contracts_raw_code: InsertTable::begin(self.contracts_raw_code),
            contracts_latest_utxo: InsertTable::begin(self.contracts_latest_utxo),
            contracts_state: MergeTable::begin(self.contracts_state),
            contracts_assets: MergeTable::begin(self.contracts_assets),
            transactions: MergeTable::begin(self.transactions),
        }
    }
}

/// Staged writes over the store, which reach it only when committed.
pub struct StorageTransaction {
    pub coins: InsertTable<UtxoId, CompressedCoin>,
    pub messages: InsertTable<Nonce, Message>,
    pub contracts_raw_code: InsertTable<ContractId, Vec<u8>>,
    pub contracts_latest_utxo: InsertTable<ContractId, ContractUtxoInfo>,
    pub contracts_state: MergeTable<ContractsStateKey, Vec<u8>>,
    pub contracts_assets: MergeTable<ContractsAssetKey, u64>,
    pub transactions: MergeTable<TxId, Vec<u8>>,
}

impl View for StorageTransaction {
    type V = Tables;

    /// What the store holds as seen from within the transaction.
    open spec fn view(&self) -> Tables {
        Tables {
            coins: self.coins.view(),
            messages: self.messages.view(),
            contracts_raw_code: self.contracts_raw_code.view(),
            contracts_latest_utxo: self.contracts_latest_utxo.view(),
            contracts_state: self.contracts_state.view(),
            contracts_assets: self.contracts_assets.view(),
            transactions: self.transactions.view(),
        }
    }
}

impl StorageTransaction {
    /// What the store held when the transaction began.
    pub open spec fn base(&self) -> Tables {
        Tables {
            coins: self.coins.base(),
            messages: self.messages.base(),
            contracts_raw_code: self.contracts_raw_code.base(),
            contracts_latest_utxo: self.contracts_latest_utxo.base(),
            contracts_state: self.contracts_state.base(),
            contracts_assets: self.contracts_assets.base(),
            transactions: self.transactions.base(),
        }
    }

    pub open spec fn wf(&self) -> bool {
        &&& self.coins.wf()
        &&& self.messages.wf()
        &&& self.contracts_raw_code.wf()
        &&& self.contracts_latest_utxo.wf()
        &&& self.contracts_state.wf()
        &&& self.contracts_assets.wf()
        &&& self.transactions.wf()
    }

    /// Writes every staged change to the store, all at once.
    pub fn commit(self) -> (r: Database)
        requires
            self.wf(),
        ensures
            r.wf(),
            r@ == self@,
    {
        Database {
            coins: self.coins.commit(),
            messages: self.messages.commit(),
            contracts_raw_code: self.contracts_raw_code.commit(),
            contracts_latest_utxo: self.contracts_latest_utxo.commit(),
            contracts_state: self.contracts_state.commit(),
            contracts_assets: self.contracts_assets.commit(),
            transactions: self.transactions.commit(),
        }
    }

    /// Drops every staged change: the store is as it was.
    pub fn discard(self) -> (r: Database)
        requires
            self.wf(),
        ensures
            r.wf(),
            r@ == self.base(),
    {
        Database {
            coins: self.coins.discard(),
            messages: self.messages.discard(),
            contracts_raw_code: self.contracts_raw_code.discard(),
            contracts_latest_utxo: self.contracts_latest_utxo.discard(),
            contracts_state: self.contracts_state.discard(),
            contracts_assets: self.contracts_assets.discard(),
            transactions: self.transactions.discard(),
        }
    }
}

} // verus!
