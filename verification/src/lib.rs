//! Verified write path of a chain-ingestion store.
//!
//! The store keeps the records that a block/microblock/transaction stream
//! produces: a chain log of blocks and microblocks, a per-asset version
//! chain with supersession and rollback repair, a height-indexed running
//! total, and one table per transaction shape.  Every operation is an
//! in-memory state transition whose effect is stated exactly in its
//! contract; a storage engine behind a unit-of-work boundary can replay
//! these transitions verbatim.

use vstd::prelude::*;

pub mod assets;
pub mod chain_log;
pub mod chunker;
pub mod storage;
pub mod tx_store;
pub mod txs;
pub mod waves_data;

verus! {

/// Why a storage operation could not produce a value.
#[derive(Clone, Copy, Debug, PartialEq, Eq, Structural)]
pub enum StoreError {
    /// No chain entry carries the requested content id.
    BlockIdNotFound,
    /// No finalized chain entry exists yet.
    NoKeyBlock,
    /// A running-total value left the representable range.
    ArithmeticOverflow,
}

} // verus!
