//! The check phase and the commit phase of block validation, stated over
//! mathematical values. The executable node is proved to follow these.
use crate::block::{block_id, BlockView, ChainEntry};
use crate::constants::{BLOCK_VALUE, GENESIS_BLOCK_HASH, MAX_AHEAD_OF_TIME_TIMESTAMP_SECS};
use crate::node_error::NodeError;
use crate::transaction::{authorizes, tx_id, TransactionInput, TransactionOutput, TransactionView};
use vstd::prelude::*;

verus! {

/// The unspent outputs: transaction identity, then output index.
pub type Ledger = Map<u32, Map<u32, TransactionOutput>>;

/// An output waiting to be inserted: transaction identity, output index, output.
pub type NewOutput = (u32, u32, TransactionOutput);

/// Whether output `i` of transaction `t` is unspent.
pub open spec fn is_unspent(l: Ledger, t: u32, i: u32) -> bool {
    l.contains_key(t) && l[t].contains_key(i)
}

/// No transaction is recorded without an unspent output.
pub open spec fn ledger_wf(l: Ledger) -> bool {
    forall|t: u32| #[trigger] l.contains_key(t) ==> !l[t].is_empty()
}

/// Removes output `i` of transaction `t`, and the record of `t` once it is empty.
pub open spec fn spend(l: Ledger, t: u32, i: u32) -> Ledger {
    if l.contains_key(t) {
        let rest = l[t].remove(i);
        if rest.is_empty() {
            l.remove(t)
        } else {
            l.insert(t, rest)
        }
    } else {
        l
    }
}

/// Inserts output `o` as output `i` of transaction `t`, creating the record if needed.
pub open spec fn create(l: Ledger, t: u32, i: u32, o: TransactionOutput) -> Ledger {
    if l.contains_key(t) {
        l.insert(t, l[t].insert(i, o))
    } else {
        l.insert(t, Map::<u32, TransactionOutput>::empty().insert(i, o))
    }
}

/// Spends each pair of `spent`, in order.
pub open spec fn spend_all(l: Ledger, spent: Seq<(u32, u32)>) -> Ledger
    decreases spent.len(),
{
    if spent.len() == 0 {
        l
    } else {
        spend(spend_all(l, spent.drop_last()), spent.last().0, spent.last().1)
    }
}

/// Creates each output of `created`, in order.
pub open spec fn create_all(l: Ledger, created: Seq<NewOutput>) -> Ledger
    decreases created.len(),
{
    if created.len() == 0 {
        l
    } else {
        let c = created.last();
        create(create_all(l, created.drop_last()), c.0, c.1, c.2)
    }
}

/// Resolves an input against the ledger as it stood before the block, where
/// `spent` lists the outputs that earlier inputs of the block have claimed.
pub open spec fn resolve_input(l: Ledger, spent: Seq<(u32, u32)>, inp: TransactionInput) -> Result<
    TransactionOutput,
    NodeError,
> {
    let t = inp.prev_transaction_hash;
    let i = inp.output_index;
    if !l.contains_key(t) {
        Err(NodeError::UnknownInputTransaction)
    } else if !l[t].contains_key(i) || spent.contains((t, i)) {
        Err(NodeError::UnknownInputOutputIndex)
    } else if !authorizes(inp.signature, l[t][i].recipient_public_key) {
        Err(NodeError::InvalidAuthorization)
    } else {
        Ok(l[t][i])
    }
}

/// Resolves the first `n` inputs in order: the claimed outputs are appended to
/// `spent`, and their values are summed.
pub open spec fn check_inputs(
    l: Ledger,
    spent: Seq<(u32, u32)>,
    inputs: Seq<TransactionInput>,
    n: nat,
) -> Result<(Seq<(u32, u32)>, int), NodeError>
    decreases n,
{
    if n == 0 {
        Ok((spent, 0))
    } else {
        match check_inputs(l, spent, inputs, (n - 1) as nat) {
            Err(e) => Err(e),
            Ok(acc) => {
                let inp = inputs[n - 1];
                match resolve_input(l, acc.0, inp) {
                    Err(e) => Err(e),
                    Ok(o) => Ok(
                        (
                            acc.0.push((inp.prev_transaction_hash, inp.output_index)),
                            acc.1 + o.value,
                        ),
                    ),
                }
            },
        }
    }
}

/// Total value of the first `n` outputs.
pub open spec fn output_sum(outs: Seq<TransactionOutput>, n: nat) -> int
    decreases n,
{
    if n == 0 {
        0
    } else {
        output_sum(outs, (n - 1) as nat) + outs[n - 1].value
    }
}

/// Appends the first `n` outputs of transaction `id` to `created`, with their indices.
pub open spec fn add_outputs(
    created: Seq<NewOutput>,
    id: u32,
    outs: Seq<TransactionOutput>,
    n: nat,
) -> Seq<NewOutput>
    decreases n,
{
    if n == 0 {
        created
    } else {
        add_outputs(created, id, outs, (n - 1) as nat).push((id, (n - 1) as u32, outs[n - 1]))
    }
}

/// What the check phase has gathered so far: outputs to remove, outputs to
/// insert, the coinbase's announced reward, and subsidy plus fees.
pub struct CheckState {
    pub spent: Seq<(u32, u32)>,
    pub created: Seq<NewOutput>,
    pub announced: int,
    pub actual: int,
}

pub open spec fn initial_check_state() -> CheckState {
    CheckState {
        spent: Seq::empty(),
        created: Seq::empty(),
        announced: 0,
        actual: BLOCK_VALUE as int,
    }
}

/// Checks transaction `tx` at position `k` of its block.
pub open spec fn check_transaction(l: Ledger, st: CheckState, k: int, tx: TransactionView) -> Result<
    CheckState,
    NodeError,
> {
    let coinbase = k == 0;
    if !coinbase && tx.reward != 0 {
        Err(NodeError::NonZeroFeeOnNonCoinbaseReward)
    } else {
        match check_inputs(l, st.spent, tx.inputs, tx.inputs.len()) {
            Err(e) => Err(e),
            Ok(acc) => {
                let input_sum = if coinbase {
                    tx.reward + acc.1
                } else {
                    acc.1
                };
                let out = output_sum(tx.outputs, tx.outputs.len());
                if out > input_sum {
                    Err(NodeError::OutputsExceedInputs)
                } else if coinbase && input_sum != out {
                    Err(NodeError::CoinbaseFeeNotZero)
                } else {
                    Ok(
                        CheckState {
                            spent: acc.0,
                            created: add_outputs(st.created, tx_id(tx), tx.outputs, tx.outputs.len()),
                            announced: if coinbase {
                                tx.reward as int
                            } else {
                                st.announced
                            },
                            actual: st.actual + (input_sum - out),
                        },
                    )
                }
            },
        }
    }
}

/// Checks the first `n` transactions in order, stopping at the first failure.
pub open spec fn check_transactions(l: Ledger, txs: Seq<TransactionView>, n: nat) -> Result<
    CheckState,
    NodeError,
>
    decreases n,
{
    if n == 0 {
        Ok(initial_check_state())
    } else {
        match check_transactions(l, txs, (n - 1) as nat) {
            Err(e) => Err(e),
            Ok(st) => check_transaction(l, st, n - 1, txs[n - 1]),
        }
    }
}

/// The node's state: chain index, ledger, pending pool, difficulty and tip.
pub struct NodeView {
    pub chain: Map<u32, ChainEntry>,
    pub ledger: Ledger,
    pub pool: Map<u32, TransactionView>,
    pub difficulty: u32,
    pub last_block_hash: u32,
}

/// The proof-of-work predicate: at least `difficulty` leading zero bits.
pub open spec fn meets_difficulty(id: u32, difficulty: u32) -> bool {
    id.leading_zeros() >= difficulty
}

/// The whole check phase, in pipeline order.
pub open spec fn validate(v: NodeView, b: BlockView, now: u32) -> Result<CheckState, NodeError> {
    let h = b.header;
    if !v.chain.contains_key(h.previous_block_hash) {
        Err(NodeError::UnknownParentBlock)
    } else if h.difficulty_target != v.difficulty {
        Err(NodeError::DifficultyMismatch)
    } else if !meets_difficulty(block_id(h), v.difficulty) {
        Err(NodeError::InsufficientProofOfWork)
    } else if h.timestamp <= v.chain[h.previous_block_hash].header.timestamp {
        Err(NodeError::NonMonotonicTimestamp)
    } else if h.timestamp > now + MAX_AHEAD_OF_TIME_TIMESTAMP_SECS {
        Err(NodeError::TimestampTooFarAhead)
    } else if b.transactions.len() == 0 {
        Err(NodeError::MissingCoinbaseTransaction)
    } else {
        match check_transactions(v.ledger, b.transactions, b.transactions.len()) {
            Err(e) => Err(e),
            Ok(st) => if st.actual != st.announced {
                Err(NodeError::RewardAnnouncementMismatch)
            } else {
                Ok(st)
            },
        }
    }
}

/// Adds `child` to the successors of `parent`, unless it is there already.
pub open spec fn link(chain: Map<u32, ChainEntry>, parent: u32, child: u32) -> Map<u32, ChainEntry> {
    if chain.contains_key(parent) && !chain[parent].successors.contains(child) {
        chain.insert(
            parent,
            ChainEntry { header: chain[parent].header, successors: chain[parent].successors.push(child) },
        )
    } else {
        chain
    }
}

/// Removes from the pool the identities of the first `n` transactions.
pub open spec fn remove_included(pool: Map<u32, TransactionView>, txs: Seq<TransactionView>, n: nat) -> Map<
    u32,
    TransactionView,
>
    decreases n,
{
    if n == 0 {
        pool
    } else {
        remove_included(pool, txs, (n - 1) as nat).remove(tx_id(txs[n - 1]))
    }
}

/// The commit phase, once the checks gathered `st`.
pub open spec fn commit(v: NodeView, b: BlockView, st: CheckState) -> NodeView {
    let id = block_id(b.header);
    NodeView {
        chain: link(
            v.chain.insert(id, ChainEntry { header: b.header, successors: Seq::empty() }),
            b.header.previous_block_hash,
            id,
        ),
        ledger: create_all(spend_all(v.ledger, st.spent), st.created),
        pool: remove_included(v.pool, b.transactions, b.transactions.len()),
        difficulty: v.difficulty,
        last_block_hash: id,
    }
}

/// The state after submitting `b` at clock time `now`, and the result.
pub open spec fn add_block_outcome(v: NodeView, b: BlockView, now: u32) -> (NodeView, Result<u32, NodeError>) {
    match validate(v, b, now) {
        Err(e) => (v, Err(e)),
        Ok(st) => (commit(v, b, st), Ok(block_id(b.header))),
    }
}

/// The well-formedness every reachable node state has.
pub open spec fn node_view_wf(v: NodeView) -> bool {
    &&& ledger_wf(v.ledger)
    &&& v.chain.contains_key(GENESIS_BLOCK_HASH)
}

/// A failure among the first `m` inputs is the result for any longer prefix.
pub proof fn lemma_check_inputs_err_stays(
    l: Ledger,
    spent: Seq<(u32, u32)>,
    inputs: Seq<TransactionInput>,
    m: nat,
    n: nat,
)
    requires
        m <= n,
        check_inputs(l, spent, inputs, m) is Err,
    ensures
        check_inputs(l, spent, inputs, n) == check_inputs(l, spent, inputs, m),
    decreases n,
{
    if n > m {
        lemma_check_inputs_err_stays(l, spent, inputs, m, (n - 1) as nat);
    }
}

/// A failure among the first `m` transactions is the result for any longer prefix.
pub proof fn lemma_check_transactions_err_stays(l: Ledger, txs: Seq<TransactionView>, m: nat, n: nat)
    requires
        m <= n,
        check_transactions(l, txs, m) is Err,
    ensures
        check_transactions(l, txs, n) == check_transactions(l, txs, m),
    decreases n,
{
    if n > m {
        lemma_check_transactions_err_stays(l, txs, m, (n - 1) as nat);
    }
}

} // verus!
