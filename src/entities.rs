use vstd::prelude::*;

verus! {

/// A 32-byte identifier, held as four 64-bit words.
#[derive(Clone, Copy, Debug, PartialEq, Eq, Structural)]
pub struct Bytes32 {
    pub w0: u64,
    pub w1: u64,
    pub w2: u64,
    pub w3: u64,
}

impl Bytes32 {
    pub fn new(w0: u64, w1: u64, w2: u64, w3: u64) -> (r: Bytes32)
        ensures
            r == (Bytes32 { w0, w1, w2, w3 }),
    {
        Bytes32 { w0, w1, w2, w3 }
    }

    /// An identifier whose last word is `n` and whose other words are zero.
    pub fn from_u64(n: u64) -> (r: Bytes32)
        ensures
            r == (Bytes32 { w0: 0, w1: 0, w2: 0, w3: n }),
    {
        Bytes32 { w0: 0, w1: 0, w2: 0, w3: n }
    }
}

pub type TxId = Bytes32;

pub type ContractId = Bytes32;

pub type AssetId = Bytes32;

pub type Address = Bytes32;

pub type Nonce = Bytes32;

/// Identifies a transaction output: the transaction and the output's index in it.
#[derive(Clone, Copy, Debug, PartialEq, Eq, Structural)]
pub struct UtxoId {
    pub tx_id: TxId,
    pub output_index: u16,
}

/// Points at a transaction: the height of its block and its index in that block.
#[derive(Clone, Copy, Debug, PartialEq, Eq, Structural)]
pub struct TxPointer {
    pub block_height: u32,
    pub tx_index: u16,
}

/// A coin as it is stored: everything but its own identifier, which is the key.
#[derive(Clone, Copy, Debug, PartialEq, Eq, Structural)]
pub struct CompressedCoin {
    pub owner: Address,
    pub amount: u64,
    pub asset_id: AssetId,
    pub tx_pointer: TxPointer,
}

/// A coin together with its identifier.
#[derive(Clone, Copy, Debug, PartialEq, Eq, Structural)]
pub struct Coin {
    pub utxo_id: UtxoId,
    pub owner: Address,
    pub amount: u64,
    pub asset_id: AssetId,
    pub tx_pointer: TxPointer,
}

pub open spec fn compressed(c: Coin) -> CompressedCoin {
    CompressedCoin {
        owner: c.owner,
        amount: c.amount,
        asset_id: c.asset_id,
        tx_pointer: c.tx_pointer,
    }
}

impl Coin {
    /// The stored form of the coin.
    pub fn compress(&self) -> (r: CompressedCoin)
        ensures
            r == compressed(*self),
    {
        CompressedCoin {
            owner: self.owner,
            amount: self.amount,
            asset_id: self.asset_id,
            tx_pointer: self.tx_pointer,
        }
    }
}

/// A message relayed from the external chain; it is keyed by its nonce.
#[derive(Debug)]
pub struct Message {
    pub sender: Address,
    pub recipient: Address,
    pub nonce: Nonce,
    pub amount: u64,
    pub data: Vec<u8>,
    pub da_height: u64,
}

impl Message {
    /// The message's identifier.
    pub fn id(&self) -> (r: &Nonce)
        ensures
            *r == self.nonce,
    {
        &self.nonce
    }
}

/// The latest output of a contract.
#[derive(Clone, Copy, Debug, PartialEq, Eq, Structural)]
pub struct ContractUtxoInfo {
    pub utxo_id: UtxoId,
    pub tx_pointer: TxPointer,
}

/// Key of a contract's storage slot.
#[derive(Clone, Copy, Debug, PartialEq, Eq, Structural)]
pub struct ContractsStateKey {
    pub contract_id: ContractId,
    pub state_key: Bytes32,
}

/// Key of a contract's balance of one asset.
#[derive(Clone, Copy, Debug, PartialEq, Eq, Structural)]
pub struct ContractsAssetKey {
    pub contract_id: ContractId,
    pub asset_id: AssetId,
}

/// One key/value pair of a snapshot table.
#[derive(Debug)]
pub struct TableEntry<K, V> {
    pub key: K,
    pub value: V,
}

/// The kinds of table that genesis fills.
#[derive(Clone, Copy, Debug, PartialEq, Eq, Structural)]
pub enum TableKind {
    Coins,
    Messages,
    ContractsRawCode,
    ContractsLatestUtxo,
    ContractsState,
    ContractsAssets,
    Transactions,
}

/// The heights that entries of the snapshot may not exceed.
#[derive(Clone, Copy, Debug, PartialEq, Eq, Structural)]
pub struct GenesisBounds {
    /// Height of the genesis block.
    pub block_height: u32,
    /// Height of the external chain that genesis has seen.
    pub da_block_height: u64,
}

/// Why an import run failed.
#[derive(Clone, Copy, Debug, PartialEq, Eq, Structural)]
pub enum ImportError {
    /// An entry points at a height above the genesis bound of its kind.
    Validation { table: TableKind, height: u64, bound: u64 },
    /// An entry's key is already in its table.
    Conflict { table: TableKind },
    /// The snapshot could not be read for this table.
    Source { table: TableKind },
    /// The run was shut down before every worker had finished.
    Cancelled,
}

impl ImportError {
    pub fn is_conflict(&self) -> (r: bool)
        ensures
            r == (*self is Conflict),
    {
        match self {
            ImportError::Conflict { .. } => true,
            _ => false,
        }
    }

    pub fn is_validation(&self) -> (r: bool)
        ensures
            r == (*self is Validation),
    {
        match self {
            ImportError::Validation { .. } => true,
            _ => false,
        }
    }

    /// The table whose entries the error is about, if it is about one.
    pub fn table(&self) -> (r: Option<TableKind>)
        ensures
            r == match *self {
                ImportError::Validation { table, .. } => Some(table),
                ImportError::Conflict { table } => Some(table),
                ImportError::Source { table } => Some(table),
                ImportError::Cancelled => None::<TableKind>,
            },
    {
        match self {
            ImportError::Validation { table, .. } => Some(*table),
            ImportError::Conflict { table } => Some(*table),
            ImportError::Source { table } => Some(*table),
            ImportError::Cancelled => None,
        }
    }
}

} // verus!
