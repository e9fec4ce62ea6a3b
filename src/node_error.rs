use vstd::prelude::*;

verus! {

/// Why a candidate block was rejected. Each check of the validation pipeline
/// has its own kind.
#[derive(Clone, Copy, Debug, PartialEq, Eq, Structural)]
pub enum NodeError {
    /// The parent named by the header is not in the chain index.
    UnknownParentBlock,
    /// The header's difficulty target is not the node's current difficulty.
    DifficultyMismatch,
    /// The block identity has fewer leading zero bits than the difficulty asks.
    InsufficientProofOfWork,
    /// The timestamp is not after the parent's timestamp.
    NonMonotonicTimestamp,
    /// The timestamp is beyond the node's clock plus the forward-drift tolerance.
    TimestampTooFarAhead,
    /// The block holds no transaction, so no coinbase transaction.
    MissingCoinbaseTransaction,
    /// An input names a transaction with no unspent output.
    UnknownInputTransaction,
    /// An input names an output index that is not unspent (or already claimed in this block).
    UnknownInputOutputIndex,
    /// An input's authorization does not match the owner of the output it spends.
    InvalidAuthorization,
    /// A transaction's outputs are worth more than its inputs.
    OutputsExceedInputs,
    /// A transaction other than the coinbase declares a reward.
    NonZeroFeeOnNonCoinbaseReward,
    /// The coinbase transaction's outputs differ from its reward plus its inputs.
    CoinbaseFeeNotZero,
    /// The coinbase reward is not the subsidy plus the fees of the block.
    RewardAnnouncementMismatch,
}

} // verus!
