//! Entities and the hierarchical pointer keys that identify them.
use vstd::prelude::*;

verus! {

/// Root key: the height of a block in the chain.
#[derive(Clone, Copy, Debug, PartialEq, Eq, Structural)]
pub struct BlockHeight(pub u32);

/// A transaction: its block and its 0-based position there.
#[derive(Clone, Copy, Debug, PartialEq, Eq, Structural)]
pub struct TxPointer {
    pub parent: BlockHeight,
    pub index: u16,
}

/// An output: its transaction and its 0-based position there.
#[derive(Clone, Copy, Debug, PartialEq, Eq, Structural)]
pub struct UtxoPointer {
    pub parent: TxPointer,
    pub index: u16,
}

/// An input: its transaction and an output index.
#[derive(Clone, Copy, Debug, PartialEq, Eq, Structural)]
pub struct InputPointer {
    pub parent: TxPointer,
    pub index: u16,
}

/// An asset carried by an output (reserved; no entity uses it yet).
#[derive(Clone, Copy, Debug, PartialEq, Eq, Structural)]
pub struct AssetPointer {
    pub parent: UtxoPointer,
    pub index: u8,
}

impl TxPointer {
    pub fn from_parent(parent: BlockHeight, index: u16) -> (r: TxPointer)
        ensures
            r == (TxPointer { parent, index }),
    {
        TxPointer { parent, index }
    }
}

impl UtxoPointer {
    pub fn from_parent(parent: TxPointer, index: u16) -> (r: UtxoPointer)
        ensures
            r == (UtxoPointer { parent, index }),
    {
        UtxoPointer { parent, index }
    }
}

impl InputPointer {
    pub fn from_parent(parent: TxPointer, index: u16) -> (r: InputPointer)
        ensures
            r == (InputPointer { parent, index }),
    {
        InputPointer { parent, index }
    }
}

impl AssetPointer {
    pub fn from_parent(parent: UtxoPointer, index: u8) -> (r: AssetPointer)
        ensures
            r == (AssetPointer { parent, index }),
    {
        AssetPointer { parent, index }
    }
}

/// A hash in text form.
#[derive(Clone, Debug)]
pub struct Hash(pub String);

/// The 32-byte hash of a block.
#[derive(Clone, Copy, Debug)]
pub struct BlockHash(pub [u8; 32]);

/// The 32-byte id of a transaction.
#[derive(Clone, Copy, Debug)]
pub struct TxHash(pub [u8; 32]);

/// The text form of an output's address, as bytes; empty when none could be derived.
#[derive(Clone, Debug)]
pub struct Address(pub Vec<u8>);

/// The locking script of an output.
#[derive(Clone, Debug)]
pub struct ScriptHash(pub Vec<u8>);

/// An input as decomposed, before resolution: the spent transaction's id and output index.
#[derive(Clone, Copy, Debug)]
pub struct TempInputRef {
    pub tx_hash: TxHash,
    pub index: u32,
}

/// Block time in seconds since the Unix epoch.
#[derive(Clone, Copy, Debug, PartialEq, Eq, Structural)]
pub struct BlockTimestamp(pub u32);

#[derive(Debug)]
pub struct Block {
    pub id: BlockHeight,
    pub header: BlockHeader,
    pub transactions: Vec<Transaction>,
    /// Number of inputs plus outputs over all transactions; a batching cost, never stored.
    pub weight: u32,
}

#[derive(Clone, Copy, Debug)]
pub struct BlockHeader {
    pub id: BlockHeight,
    pub hash: BlockHash,
    pub prev_hash: BlockHash,
    pub timestamp: BlockTimestamp,
}

#[derive(Debug)]
pub struct Transaction {
    pub id: TxPointer,
    pub hash: TxHash,
    pub utxos: Vec<Utxo>,
    /// Inputs bound to the outputs they spend; filled when the block is stored.
    pub inputs: Vec<InputRef>,
    /// Inputs as decomposed; never stored.
    pub transient_inputs: Vec<TempInputRef>,
}

#[derive(Debug)]
pub struct Utxo {
    pub id: UtxoPointer,
    pub amount: u64,
    pub script_hash: ScriptHash,
    pub address: Address,
}

#[derive(Clone, Copy, Debug)]
pub struct InputRef {
    pub id: InputPointer,
}

/// Failures of the indexing core.
#[derive(Debug)]
pub enum ExplorerError {
    /// The block source failed.
    Rpc(String),
    /// A block height could not be decoded.
    Bip34(String),
    /// A block at this height has more transactions, inputs or outputs than its keys can index.
    BlockTooLarge(u32),
    /// A block at this height is already stored.
    DuplicateHeight(u32),
    /// The header of the block at this height is keyed by another height.
    HeaderMismatch(u32),
}

/// A time in seconds since the Unix epoch, written as UTC `YYYY-MM-DD HH:MM:SS`.
pub uninterp spec fn readable_utc_of(secs: u32) -> Seq<char>;

/// Relies on chrono::DateTime::from_timestamp, which accepts every `u32` count of
/// seconds, and on chrono's formatting with "%Y-%m-%d %H:%M:%S".
#[verifier::external_body]
fn readable_utc(secs: u32) -> (r: String)
    ensures
        r@ == readable_utc_of(secs),
{
    match chrono::DateTime::from_timestamp(secs as i64, 0) {
        Some(t) => t.format("%Y-%m-%d %H:%M:%S").to_string(),
        None => String::new(),
    }
}

impl BlockTimestamp {
    /// The timestamp as UTC date and time, `YYYY-MM-DD HH:MM:SS`.
    pub fn to_readable(&self) -> (r: String)
        ensures
            r@ == readable_utc_of(self.0),
    {
        readable_utc(self.0)
    }
}

impl BlockHeader {
    pub fn height(&self) -> (r: u32)
        ensures
            r == self.id.0,
    {
        self.id.0
    }

    pub fn hash(&self) -> (r: [u8; 32])
        ensures
            r == self.hash.0,
    {
        self.hash.0
    }

    pub fn prev_hash(&self) -> (r: [u8; 32])
        ensures
            r == self.prev_hash.0,
    {
        self.prev_hash.0
    }

    pub fn timestamp(&self) -> (r: u32)
        ensures
            r == self.timestamp.0,
    {
        self.timestamp.0
    }
}

impl Block {
    pub fn header(&self) -> (r: &BlockHeader)
        ensures
            *r == self.header,
    {
        &self.header
    }

    pub fn weight(&self) -> (r: u32)
        ensures
            r == self.weight,
    {
        self.weight
    }
}

} // verus!
