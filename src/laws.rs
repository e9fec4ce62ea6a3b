//! Properties of block submission, proved over the model that the node follows.
use crate::block::BlockView;
use crate::constants::BLOCK_VALUE;
use crate::node_error::NodeError;
use crate::transaction::{TransactionInput, TransactionView};
use crate::validation::{
    add_block_outcome, check_inputs, check_transactions, is_unspent, output_sum, resolve_input,
    validate, Ledger, NodeView,
};
use vstd::prelude::*;

verus! {

/// Total value, in the ledger `l`, of the outputs that the first `n` inputs name.
pub open spec fn input_value_sum(l: Ledger, inputs: Seq<TransactionInput>, n: nat) -> int
    decreases n,
{
    if n == 0 {
        0
    } else {
        let inp = inputs[n - 1];
        input_value_sum(l, inputs, (n - 1) as nat) + l[inp.prev_transaction_hash][inp.output_index].value
    }
}

/// Total value consumed by the inputs of the first `n` transactions.
pub open spec fn block_input_total(l: Ledger, txs: Seq<TransactionView>, n: nat) -> int
    decreases n,
{
    if n == 0 {
        0
    } else {
        block_input_total(l, txs, (n - 1) as nat) + input_value_sum(
            l,
            txs[n - 1].inputs,
            txs[n - 1].inputs.len(),
        )
    }
}

/// Total value created by the outputs of the first `n` transactions.
pub open spec fn block_output_total(txs: Seq<TransactionView>, n: nat) -> int
    decreases n,
{
    if n == 0 {
        0
    } else {
        block_output_total(txs, (n - 1) as nat) + output_sum(txs[n - 1].outputs, txs[n - 1].outputs.len())
    }
}

/// Whether some input of some transaction names an output that is not unspent in `l`.
pub open spec fn has_phantom_input(l: Ledger, txs: Seq<TransactionView>) -> bool {
    exists|j: int, k: int|
        0 <= j < txs.len() && 0 <= k < txs[j].inputs.len() && !is_unspent(
            l,
            #[trigger] txs[j].inputs[k].prev_transaction_hash,
            txs[j].inputs[k].output_index,
        )
}

proof fn lemma_inputs_ok(l: Ledger, spent: Seq<(u32, u32)>, inputs: Seq<TransactionInput>, n: nat)
    requires
        n <= inputs.len(),
        check_inputs(l, spent, inputs, n) is Ok,
    ensures
        check_inputs(l, spent, inputs, n)->Ok_0.1 == input_value_sum(l, inputs, n),
        forall|k: int|
            0 <= k < n ==> is_unspent(
                l,
                #[trigger] inputs[k].prev_transaction_hash,
                inputs[k].output_index,
            ),
    decreases n,
{
    if n > 0 {
        lemma_inputs_ok(l, spent, inputs, (n - 1) as nat);
    }
}

proof fn lemma_transactions_ok(l: Ledger, txs: Seq<TransactionView>, n: nat)
    requires
        n <= txs.len(),
        check_transactions(l, txs, n) is Ok,
    ensures
        ({
            let st = check_transactions(l, txs, n)->Ok_0;
            block_output_total(txs, n) == block_input_total(l, txs, n) + (if n > 0 {
                st.announced
            } else {
                0
            }) - (st.actual - BLOCK_VALUE)
        }),
        forall|j: int, k: int|
            0 <= j < n && 0 <= k < txs[j].inputs.len() ==> is_unspent(
                l,
                #[trigger] txs[j].inputs[k].prev_transaction_hash,
                txs[j].inputs[k].output_index,
            ),
    decreases n,
{
    if n > 0 {
        lemma_transactions_ok(l, txs, (n - 1) as nat);
        let st = check_transactions(l, txs, (n - 1) as nat)->Ok_0;
        let tx = txs[n - 1];
        lemma_inputs_ok(l, st.spent, tx.inputs, tx.inputs.len());
        assert forall|j: int, k: int|
            0 <= j < n && 0 <= k < txs[j].inputs.len() implies is_unspent(
                l,
                #[trigger] txs[j].inputs[k].prev_transaction_hash,
                txs[j].inputs[k].output_index,
            ) by {
            if j == n - 1 {
                assert(is_unspent(l, tx.inputs[k].prev_transaction_hash, tx.inputs[k].output_index));
            }
        }
    }
}

/// Conservation: in every block that is committed, the outputs created are
/// worth exactly the outputs consumed plus the block subsidy, so never more.
pub proof fn lemma_conservation(v: NodeView, b: BlockView, now: u32)
    requires
        add_block_outcome(v, b, now).1 is Ok,
    ensures
        block_output_total(b.transactions, b.transactions.len()) == block_input_total(
            v.ledger,
            b.transactions,
            b.transactions.len(),
        ) + BLOCK_VALUE,
        block_output_total(b.transactions, b.transactions.len()) <= block_input_total(
            v.ledger,
            b.transactions,
            b.transactions.len(),
        ) + BLOCK_VALUE,
{
    lemma_transactions_ok(v.ledger, b.transactions, b.transactions.len());
}

/// No phantom spend: a block with an input that names an output not in the
/// ledger is rejected and changes nothing.
pub proof fn lemma_no_phantom_spend(v: NodeView, b: BlockView, now: u32)
    requires
        has_phantom_input(v.ledger, b.transactions),
    ensures
        add_block_outcome(v, b, now).1 is Err,
        add_block_outcome(v, b, now).0 == v,
{
    if validate(v, b, now) is Ok {
        lemma_transactions_ok(v.ledger, b.transactions, b.transactions.len());
    }
}

/// Resolving an input that names an output not in the ledger fails with
/// `UnknownInputTransaction` or `UnknownInputOutputIndex`.
pub proof fn lemma_phantom_input_error(l: Ledger, spent: Seq<(u32, u32)>, inp: TransactionInput)
    requires
        !is_unspent(l, inp.prev_transaction_hash, inp.output_index),
    ensures
        resolve_input(l, spent, inp) == Err::<crate::transaction::TransactionOutput, NodeError>(NodeError::UnknownInputTransaction)
            || resolve_input(l, spent, inp) == Err::<crate::transaction::TransactionOutput, NodeError>(NodeError::UnknownInputOutputIndex),
{
}

/// Atomicity: a rejected block leaves the chain index, the ledger, the
/// pending pool, the difficulty and the tip exactly as they were.
pub proof fn lemma_rejection_is_atomic(v: NodeView, b: BlockView, now: u32)
    requires
        add_block_outcome(v, b, now).1 is Err,
    ensures
        add_block_outcome(v, b, now).0 == v,
{
}

/// Idempotent rejection: submitting the same rejected block again, at the same
/// clock time, gives the same error and again leaves the state unchanged.
pub proof fn lemma_rejection_is_idempotent(v: NodeView, b: BlockView, now: u32)
    requires
        add_block_outcome(v, b, now).1 is Err,
    ensures
        ({
            let (v1, r1) = add_block_outcome(v, b, now);
            &&& v1 == v
            &&& add_block_outcome(v1, b, now) == (v1, r1)
        }),
{
}

} // verus!
