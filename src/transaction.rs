use std::collections::HashMap;
use crate::encoding::{digest_id, encode_transaction, id_of_digest, sha256_of, transaction_bytes};
use vstd::prelude::*;

verus! {

/// A value transfer to one owner identity.
#[derive(Clone, Copy, Debug, PartialEq, Eq, Structural)]
pub struct TransactionOutput {
    pub recipient_public_key: u32,
    pub value: u64,
}

/// A reference to one earlier output, with the claim that authorizes spending it.
#[derive(Clone, Copy, Debug, PartialEq, Eq, Structural)]
pub struct TransactionInput {
    pub prev_transaction_hash: u32,
    pub output_index: u32,
    pub signature: u32,
    pub sequence: u32,
}

/// Inputs consumed and outputs produced. `reward` is meaningful only for the
/// first (coinbase) transaction of a block.
#[derive(Debug)]
pub struct Transaction {
    pub version: u32,
    pub reward: u64,
    pub inputs: Vec<TransactionInput>,
    pub outputs: Vec<TransactionOutput>,
    pub locktime: u32,
}

/// What a transaction says, with its sequences as mathematical sequences.
pub struct TransactionView {
    pub version: u32,
    pub reward: u64,
    pub inputs: Seq<TransactionInput>,
    pub outputs: Seq<TransactionOutput>,
    pub locktime: u32,
}

impl View for Transaction {
    type V = TransactionView;

    open spec fn view(&self) -> TransactionView {
        TransactionView {
            version: self.version,
            reward: self.reward,
            inputs: self.inputs@,
            outputs: self.outputs@,
            locktime: self.locktime,
        }
    }
}

/// Identity of a transaction, derived from the digest of its canonical bytes.
pub open spec fn tx_id(t: TransactionView) -> u32 {
    id_of_digest(sha256_of(transaction_bytes(t)))
}

/// Whether `claim` authorizes spending an output owned by `owner`: the claim
/// must name the owner's identity.
pub open spec fn authorizes(claim: u32, owner: u32) -> bool {
    claim == owner
}

impl Transaction {
    /// The transaction's identity.
    pub fn hash(&self) -> (r: u32)
        ensures
            r == tx_id(self@),
    {
        digest_id(&encode_transaction(self))
    }
}

impl Clone for Transaction {
    fn clone(&self) -> (r: Self)
        ensures
            r@ == self@,
    {
        let inputs = self.inputs.clone();
        let outputs = self.outputs.clone();
        proof {
            assert(inputs@ =~= self.inputs@);
            assert(outputs@ =~= self.outputs@);
        }
        Transaction {
            version: self.version,
            reward: self.reward,
            inputs,
            outputs,
            locktime: self.locktime,
        }
    }
}

/// The still-spendable outputs of one transaction, keyed by output index.
pub struct UnspentTransaction {
    pub hash: u32,
    pub unspent_outputs: HashMap<u32, TransactionOutput>,
}

impl UnspentTransaction {
    pub fn new(hash: u32) -> (r: Self)
        ensures
            r.hash == hash,
            r.unspent_outputs@ == Map::<u32, TransactionOutput>::empty(),
    {
        UnspentTransaction { hash, unspent_outputs: HashMap::new() }
    }
}

} // verus!
