//! The block provider: decomposes fetched blocks and plans which heights to fetch.
use vstd::prelude::*;

use crate::block_processor::{block_decomposed, fits_keys, BtcBlockProcessor};
use crate::model::{Block, BlockHeader, ExplorerError};
use crate::raw_block::BtcBlock;

verus! {

pub struct BtcBlockProvider {
    /// How many blocks may be fetched at once.
    pub fetching_par: usize,
}

impl BtcBlockProvider {
    pub fn new(fetching_par: usize) -> (r: BtcBlockProvider)
        ensures
            r.fetching_par == fetching_par,
    {
        BtcBlockProvider { fetching_par }
    }

    /// Decomposes a fetched block, as `BtcBlockProcessor::process_block` does.
    pub fn process_block(&self, block: &BtcBlock) -> (r: Result<Block, ExplorerError>)
        ensures
            match r {
                Ok(b) => fits_keys(block.underlying) && block_decomposed(
                    b,
                    block.height.0,
                    block.underlying,
                ),
                Err(ExplorerError::BlockTooLarge(h)) => !fits_keys(block.underlying) && h
                    == block.height.0,
                Err(_) => false,
            },
    {
        let processor = BtcBlockProcessor {};
        processor.process_block(block)
    }

    /// The heights to fetch, both included: from the last stored height (fetched
    /// again), or 0 when nothing is stored, up to the chain tip.
    pub fn stream_range(&self, chain_tip_header: &BlockHeader, last_header: Option<BlockHeader>) -> (r: (
        u32,
        u32,
    ))
        ensures
            r.1 == chain_tip_header.id.0,
            r.0 == match last_header {
                Some(h) => h.id.0,
                None => 0,
            },
    {
        let last_height = match last_header {
            Some(h) => h.id.0,
            None => 0,
        };
        (last_height, chain_tip_header.id.0)
    }
}

} // verus!
