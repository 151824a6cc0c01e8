//! Indexing core of a Bitcoin block explorer: decomposition of raw blocks into
//! keyed entities, ordered and weight-bounded batching of decomposed blocks, and
//! a block store that resolves spent outputs and supports replacing blocks.
pub mod address;
pub mod block_persistence;
pub mod block_processor;
pub mod block_provider;
pub mod model;
pub mod pipeline;
pub mod raw_block;
