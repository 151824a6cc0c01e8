//! A block as fetched from the node, held as the plain values that decomposition reads.
use vstd::prelude::*;

use crate::model::BlockHeight;

verus! {

#[derive(Clone, Copy, Debug)]
pub struct RawHeader {
    pub hash: [u8; 32],
    pub prev_hash: [u8; 32],
    pub time: u32,
}

/// The output that an input spends.
#[derive(Clone, Copy, Debug)]
pub struct RawTxIn {
    pub prev_txid: [u8; 32],
    pub vout: u32,
}

#[derive(Clone, Debug)]
pub struct RawTxOut {
    /// Amount in satoshis.
    pub value: u64,
    pub script_pubkey: Vec<u8>,
}

#[derive(Clone, Debug)]
pub struct RawTransaction {
    pub txid: [u8; 32],
    pub input: Vec<RawTxIn>,
    pub output: Vec<RawTxOut>,
}

#[derive(Clone, Debug)]
pub struct RawBlock {
    pub header: RawHeader,
    pub txdata: Vec<RawTransaction>,
}

/// A raw block together with its height.
#[derive(Clone, Debug)]
pub struct BtcBlock {
    pub height: BlockHeight,
    pub underlying: RawBlock,
}

} // verus!
