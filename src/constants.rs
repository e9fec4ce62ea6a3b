use vstd::prelude::*;

verus! {

/// Version stamped on headers and transactions.
pub const VERSION: u32 = 1;

/// A block may carry a timestamp up to two hours after the node's clock.
pub const MAX_AHEAD_OF_TIME_TIMESTAMP_SECS: u32 = 7200;

/// Leading zero bits a block identity must have; fixed for the node's lifetime.
pub const STARTING_DIFFICULTY: u32 = 4;

/// Identity of the genesis entry of the chain index.
pub const GENESIS_BLOCK_HASH: u32 = 0;

/// Value minted by every block (the block subsidy).
pub const BLOCK_VALUE: u64 = 100;

} // verus!
