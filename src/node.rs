use crate::block::{block_id, Block, BlockHeader, BlockWrapper, ChainEntry};
use crate::constants::{
    BLOCK_VALUE, GENESIS_BLOCK_HASH, MAX_AHEAD_OF_TIME_TIMESTAMP_SECS, STARTING_DIFFICULTY,
};
use crate::node_error::NodeError;
use crate::transaction::{tx_id, Transaction, TransactionOutput, TransactionView, UnspentTransaction};
use crate::validation::{
    add_block_outcome, check_inputs, check_transaction, check_transactions, create, create_all,
    link, meets_difficulty, node_view_wf, output_sum, remove_included,
    is_unspent, spend, spend_all, validate, add_outputs, CheckState, Ledger, NewOutput, NodeView,
    lemma_check_inputs_err_stays, lemma_check_transactions_err_stays,
};
use std::collections::HashMap;
use vstd::prelude::*;

verus! {

broadcast use vstd::std_specs::hash::group_hash_axioms;

/// The ledger held by a map of unspent-transaction records.
pub closed spec fn ledger_of(m: Map<u32, UnspentTransaction>) -> Ledger {
    Map::new(|t: u32| m.contains_key(t), |t: u32| m[t].unspent_outputs@)
}

/// A single ledger node: chain index, unspent outputs, pending pool, difficulty and tip.
pub struct Node {
    blocks: HashMap<u32, BlockWrapper>,
    unspent_transactions: HashMap<u32, UnspentTransaction>,
    current_difficulty: u32,
    last_block_hash: u32,
    transaction_pool: HashMap<u32, Transaction>,
}

impl View for Node {
    type V = NodeView;

    closed spec fn view(&self) -> NodeView {
        NodeView {
            chain: self.blocks@.map_values(|w: BlockWrapper| w@),
            ledger: ledger_of(self.unspent_transactions@),
            pool: self.transaction_pool@.map_values(|t: Transaction| t@),
            difficulty: self.current_difficulty,
            last_block_hash: self.last_block_hash,
        }
    }
}

impl Node {
    /// The node's state is well formed, and each record is filed under its own identity.
    pub closed spec fn wf(&self) -> bool {
        &&& node_view_wf(self@)
        &&& forall|t: u32| #[trigger]
            self.unspent_transactions@.contains_key(t) ==> self.unspent_transactions@[t].hash == t
    }

    /// A node whose chain index holds the genesis entry alone.
    pub fn new() -> (r: Self)
        ensures
            r.wf(),
            r@.chain == Map::<u32, ChainEntry>::empty().insert(
                GENESIS_BLOCK_HASH,
                ChainEntry { header: crate::block::genesis_header(), successors: Seq::empty() },
            ),
            r@.ledger == Ledger::empty(),
            r@.pool == Map::<u32, TransactionView>::empty(),
            r@.difficulty == STARTING_DIFFICULTY,
            r@.last_block_hash == GENESIS_BLOCK_HASH,
    {
        let mut node = Node {
            blocks: HashMap::new(),
            unspent_transactions: HashMap::new(),
            current_difficulty: STARTING_DIFFICULTY,
            last_block_hash: GENESIS_BLOCK_HASH,
            transaction_pool: HashMap::new(),
        };
        let genesis_block_header = BlockHeader::genesis();
        node.blocks.insert(GENESIS_BLOCK_HASH, BlockWrapper::from_header(genesis_block_header));
        proof {
            assert(node@.chain =~= Map::<u32, ChainEntry>::empty().insert(
                GENESIS_BLOCK_HASH,
                ChainEntry { header: crate::block::genesis_header(), successors: Seq::empty() },
            ));
            assert(node@.ledger =~= Ledger::empty());
            assert(node@.pool =~= Map::<u32, TransactionView>::empty());
        }
        node
    }

    /// The most recently committed block, the default parent of the next candidate.
    pub fn get_last_block_hash(&self) -> (r: u32)
        ensures
            r == self@.last_block_hash,
    {
        self.last_block_hash
    }

    /// Output `output_index` of transaction `transaction_id`, if it is unspent.
    pub fn lookup_output(&self, transaction_id: u32, output_index: u32) -> (r: Option<TransactionOutput>)
        ensures
            match r {
                Some(o) => is_unspent(self@.ledger, transaction_id, output_index)
                    && o == self@.ledger[transaction_id][output_index],
                None => !is_unspent(self@.ledger, transaction_id, output_index),
            },
    {
        match self.unspent_transactions.get(&transaction_id) {
            Some(record) => match record.unspent_outputs.get(&output_index) {
                Some(output) => Some(*output),
                None => None,
            },
            None => None,
        }
    }

    /// How many outputs of transaction `transaction_id` are unspent.
    pub fn unspent_output_count(&self, transaction_id: u32) -> (r: usize)
        ensures
            r == if self@.ledger.contains_key(transaction_id) {
                self@.ledger[transaction_id].len()
            } else {
                0
            },
    {
        match self.unspent_transactions.get(&transaction_id) {
            Some(record) => record.unspent_outputs.len(),
            None => 0,
        }
    }

    /// How many transactions have at least one unspent output.
    pub fn unspent_transaction_count(&self) -> (r: usize)
        ensures
            r == self@.ledger.len(),
    {
        proof {
            assert(self@.ledger.dom() =~= self.unspent_transactions@.dom());
        }
        self.unspent_transactions.len()
    }

    /// Every unspent output, with the transaction identity and output index
    /// that name it: what an ownership summary is drawn from.
    pub fn unspent_outputs(&self) -> (r: Vec<NewOutput>)
        ensures
            forall|e: NewOutput|
                r@.contains(e) <==> (is_unspent(self@.ledger, e.0, e.1) && self@.ledger[e.0][e.1] == e.2),
    {
        let ghost l = self@.ledger;
        let mut result: Vec<NewOutput> = Vec::new();
        let ids = self.unspent_transactions.keys();
        let ghost all = vstd::std_specs::iter::IteratorSpec::remaining(&ids).unref();
        assert(all.to_set() == self.unspent_transactions@.dom());
        for t in it: ids
            invariant
                it.seq().unref() == all,
                all.to_set() == self.unspent_transactions@.dom(),
                l == self@.ledger,
                forall|e: NewOutput|
                    result@.contains(e) <==> (all.take(it.index() as int).contains(e.0) && is_unspent(l, e.0, e.1)
                        && l[e.0][e.1] == e.2),
        {
            let ghost j0 = it.index() as int;
            let ghost before = result@;
            assert(all[j0] == *t);
            assert(all.to_set().contains(all[j0]));
            let record = self.unspent_transactions.get(t).unwrap();
            let ghost outs = record.unspent_outputs@;
            assert(outs == l[*t]);
            let indices = record.unspent_outputs.keys();
            let ghost inner = vstd::std_specs::iter::IteratorSpec::remaining(&indices).unref();
            assert(inner.to_set() == outs.dom());
            let ghost mut seen: int = 0;
            for i in it2: indices
                invariant
                    it2.seq().unref() == inner,
                    seen == it2.index(),
                    inner.to_set() == outs.dom(),
                    outs == record.unspent_outputs@,
                    l.contains_key(*t),
                    outs == l[*t],
                    forall|e: NewOutput|
                        before.contains(e) <==> (all.take(j0).contains(e.0) && is_unspent(l, e.0, e.1)
                            && l[e.0][e.1] == e.2),
                    forall|e: NewOutput|
                        result@.contains(e) <==> (before.contains(e) || (e.0 == *t && inner.take(it2.index() as int).contains(e.1)
                            && outs.contains_key(e.1) && outs[e.1] == e.2)),
            {
                let ghost k0 = it2.index() as int;
                let ghost mid = result@;
                assert(inner[k0] == *i);
                assert(inner.to_set().contains(inner[k0]));
                let output = *record.unspent_outputs.get(i).unwrap();
                result.push((*t, *i, output));
                proof {
                    seen = seen + 1;
                    assert(inner.take(k0 + 1) =~= inner.take(k0).push(*i));
                    assert forall|e: NewOutput|
                        result@.contains(e) <==> (before.contains(e) || (e.0 == *t && inner.take(k0 + 1).contains(e.1)
                            && outs.contains_key(e.1) && outs[e.1] == e.2)) by {
                        if result@.contains(e) && !mid.contains(e) {
                            let x = choose|x: int| 0 <= x < result@.len() && result@[x] == e;
                            if x < mid.len() {
                                assert(mid[x] == e);
                            }
                            assert(e == (*t, *i, output));
                            assert(inner.take(k0 + 1)[k0] == *i);
                        }
                        if mid.contains(e) {
                            let x = choose|x: int| 0 <= x < mid.len() && mid[x] == e;
                            assert(result@[x] == e);
                        }
                        if e == (*t, *i, output) {
                            assert(result@[mid.len() as int] == e);
                        }
                    }
                }
            }
            proof {
                assert(seen == inner.len());
                assert(inner.take(inner.len() as int) =~= inner);
                assert(all.take(j0 + 1) =~= all.take(j0).push(*t));
                assert forall|e: NewOutput|
                    result@.contains(e) <==> (all.take(j0 + 1).contains(e.0) && is_unspent(l, e.0, e.1)
                        && l[e.0][e.1] == e.2) by {
                    assert(result@.contains(e) <==> (before.contains(e) || (e.0 == *t && inner.take(seen).contains(e.1)
                        && outs.contains_key(e.1) && outs[e.1] == e.2)));
                    assert(before.contains(e) <==> (all.take(j0).contains(e.0) && is_unspent(l, e.0, e.1)
                        && l[e.0][e.1] == e.2));
                    if e.0 == *t {
                        assert(all.take(j0 + 1)[j0] == *t);
                        assert(inner.to_set().contains(e.1) <==> inner.contains(e.1));
                        assert(inner.contains(e.1) <==> outs.contains_key(e.1));
                    }
                    if all.take(j0).contains(e.0) {
                        let x = choose|x: int| 0 <= x < j0 && #[trigger] all.take(j0)[x] == e.0;
                        assert(all.take(j0 + 1)[x] == e.0);
                    }
                    if all.take(j0 + 1).contains(e.0) && e.0 != *t {
                        let x = choose|x: int| 0 <= x < j0 + 1 && #[trigger] all.take(j0 + 1)[x] == e.0;
                        assert(all.take(j0)[x] == e.0);
                    }
                }
            }
        }
        proof {
            assert(all.take(all.len() as int) =~= all);
            assert forall|e: NewOutput| all.contains(e.0) <==> l.contains_key(e.0) by {
                assert(all.to_set().contains(e.0) <==> all.contains(e.0));
            }
        }
        result
    }

    /// The chain entry of block `block_id`, if the chain index holds it.
    pub fn get_block(&self, block_id: u32) -> (r: Option<&BlockWrapper>)
        ensures
            match r {
                Some(w) => self@.chain.contains_key(block_id) && w@ == self@.chain[block_id],
                None => !self@.chain.contains_key(block_id),
            },
    {
        self.blocks.get(&block_id)
    }

    /// Stores `transaction` in the pending pool under its identity; a later
    /// submission with the same identity replaces an earlier one.
    pub fn add_transaction(&mut self, transaction: Transaction) -> (r: u32)
        requires
            old(self).wf(),
        ensures
            final(self).wf(),
            r == tx_id(transaction@),
            final(self)@ == (NodeView { pool: old(self)@.pool.insert(r, transaction@), ..old(self)@ }),
    {
        let hash = transaction.hash();
        self.transaction_pool.insert(hash, transaction);
        proof {
            assert(self@.pool =~= old(self)@.pool.insert(hash, transaction@));
        }
        hash
    }

    /// Submits `block`, with `now` as the node's clock in seconds since the Unix
    /// epoch. The block is checked in full first; only when every check passes
    /// are the ledger, the pending pool and the chain index changed, and the
    /// block's identity is returned. On a failure nothing changes.
    pub fn add_block_at(&mut self, block: Block, now: u32) -> (r: Result<u32, NodeError>)
        requires
            old(self).wf(),
        ensures
            final(self).wf(),
            (final(self)@, r) == add_block_outcome(old(self)@, block@, now),
    {
        let block_hash = block.hash();
        match self.check_block(&block, now) {
            Err(e) => Err(e),
            Ok((spent, created)) => {
                self.apply_spends(&spent);
                self.apply_creates(created);
                self.remove_included_transactions(&block);
                self.register_block(block.header, block_hash);
                Ok(block_hash)
            },
        }
    }

    /// Submits `block`, checked against the node's clock at the time of the call.
    pub fn add_block(&mut self, block: Block) -> (r: Result<u32, NodeError>)
        requires
            old(self).wf(),
        ensures
            final(self).wf(),
            exists|now: u32| (final(self)@, r) == add_block_outcome(old(self)@, block@, now),
    {
        let now = self.get_current_time();
        self.add_block_at(block, now)
    }

    /// The transactions of the pending pool, each once; the pool is left as it is.
    pub fn get_awaiting_transactions(&self) -> (r: Vec<Transaction>)
        ensures
            r@.len() == self@.pool.len(),
            r@.map_values(|t: Transaction| t@).to_set() == self@.pool.values(),
    {
        let mut result: Vec<Transaction> = Vec::new();
        let values = self.transaction_pool.values();
        let ghost all = vstd::std_specs::iter::IteratorSpec::remaining(&values);
        for transaction in it: values
            invariant
                it.seq() == all,
                result@.len() == it.index(),
                forall|k: int| 0 <= k < it.index() ==> result@[k]@ == (*all[k])@,
        {
            result.push(transaction.clone());
        }
        proof {
            let m = self.transaction_pool@;
            let items = all.unref();
            let got = result@.map_values(|t: Transaction| t@);
            assert(items.to_set() == m.values());
            assert(got =~= items.map_values(|t: Transaction| t@));
            assert(self@.pool.dom() =~= m.dom());
            assert forall|v: TransactionView| got.to_set().contains(v) implies self@.pool.values().contains(v) by {
                let idx = choose|idx: int| 0 <= idx < got.len() && got[idx] == v;
                assert(items.to_set().contains(items[idx]));
                let k = choose|k: u32| m.contains_key(k) && m[k] == items[idx];
                assert(self@.pool.contains_key(k) && self@.pool[k] == v);
            }
            assert forall|v: TransactionView| self@.pool.values().contains(v) implies got.to_set().contains(v) by {
                let k = choose|k: u32| self@.pool.contains_key(k) && self@.pool[k] == v;
                assert(m.values().contains(m[k]));
                assert(items.to_set().contains(m[k]));
                let idx = choose|idx: int| 0 <= idx < items.len() && items[idx] == m[k];
                assert(got[idx] == v);
            }
            assert(got.to_set() =~= self@.pool.values());
        }
        result
    }

    /// Relies on std's SystemTime: seconds since the Unix epoch, cut to 32 bits
    /// (zero if the clock stands before the epoch). Nothing is promised of the value.
    #[verifier::external_body]
    fn get_current_time(&self) -> (r: u32) {
        match std::time::SystemTime::now().duration_since(std::time::SystemTime::UNIX_EPOCH) {
            Ok(elapsed) => elapsed.as_secs() as u32,
            Err(_) => 0,
        }
    }

    /// Whether output `i` of transaction `t` was claimed by an earlier input of the block.
    fn was_claimed(spent: &Vec<(u32, u32)>, t: u32, i: u32) -> (r: bool)
        ensures
            r == spent@.contains((t, i)),
    {
        let mut j: usize = 0;
        while j < spent.len()
            invariant
                j <= spent@.len(),
                forall|k: int| 0 <= k < j ==> spent@[k] != (t, i),
            decreases spent.len() - j,
        {
            if spent[j].0 == t && spent[j].1 == i {
                return true;
            }
            j += 1;
        }
        false
    }

    /// Resolves every input of a transaction against the ledger, appending the
    /// claimed outputs to `spent`; returns the sum of their values.
    fn resolve_inputs(&self, inputs: &Vec<crate::transaction::TransactionInput>, spent: &mut Vec<(u32, u32)>) -> (r: Result<u128, NodeError>)
        ensures
            match r {
                Ok(sum) => check_inputs(self@.ledger, old(spent)@, inputs@, inputs@.len()) == Ok::<(Seq<(u32, u32)>, int), NodeError>((final(spent)@, sum as int)),
                Err(e) => check_inputs(self@.ledger, old(spent)@, inputs@, inputs@.len()) == Err::<(Seq<(u32, u32)>, int), NodeError>(e),
            },
            r is Ok ==> r->Ok_0 <= inputs@.len() * 0xFFFF_FFFF_FFFF_FFFF,
    {
        let ghost l = self@.ledger;
        let ghost spent0 = spent@;
        let mut sum: u128 = 0;
        let mut j: usize = 0;
        while j < inputs.len()
            invariant
                j <= inputs@.len(),
                l == self@.ledger,
                spent0 == old(spent)@,
                sum <= j * 0xFFFF_FFFF_FFFF_FFFFu128,
                check_inputs(l, spent0, inputs@, j as nat) == Ok::<(Seq<(u32, u32)>, int), NodeError>((spent@, sum as int)),
            decreases inputs.len() - j,
        {
            let inp = inputs[j];
            let t = inp.prev_transaction_hash;
            let i = inp.output_index;
            let rec_opt = self.unspent_transactions.get(&t);
            if rec_opt.is_none() {
                proof {
                    lemma_check_inputs_err_stays(l, spent0, inputs@, (j + 1) as nat, inputs@.len());
                }
                return Err(NodeError::UnknownInputTransaction);
            }
            let out_opt = rec_opt.unwrap().unspent_outputs.get(&i);
            if out_opt.is_none() {
                proof {
                    lemma_check_inputs_err_stays(l, spent0, inputs@, (j + 1) as nat, inputs@.len());
                }
                return Err(NodeError::UnknownInputOutputIndex);
            }
            let out = *out_opt.unwrap();
            if Self::was_claimed(spent, t, i) {
                proof {
                    lemma_check_inputs_err_stays(l, spent0, inputs@, (j + 1) as nat, inputs@.len());
                }
                return Err(NodeError::UnknownInputOutputIndex);
            }
            if inp.signature != out.recipient_public_key {
                proof {
                    lemma_check_inputs_err_stays(l, spent0, inputs@, (j + 1) as nat, inputs@.len());
                }
                return Err(NodeError::InvalidAuthorization);
            }
            sum = sum + out.value as u128;
            spent.push((t, i));
            j += 1;
        }
        Ok(sum)
    }

    /// Checks transaction `tx` at position `k` of its block, gathering what it
    /// spends and creates; returns its fee.
    fn check_one(
        &self,
        k: usize,
        tx: &Transaction,
        spent: &mut Vec<(u32, u32)>,
        created: &mut Vec<NewOutput>,
        Ghost(st): Ghost<CheckState>,
    ) -> (r: Result<u128, NodeError>)
        requires
            st.spent == old(spent)@,
            st.created == old(created)@,
        ensures
            match r {
                Ok(fee) => check_transaction(self@.ledger, st, k as int, tx@) == Ok::<CheckState, NodeError>(
                    CheckState {
                        spent: final(spent)@,
                        created: final(created)@,
                        announced: if k == 0 { tx.reward as int } else { st.announced },
                        actual: st.actual + fee,
                    },
                ),
                Err(e) => check_transaction(self@.ledger, st, k as int, tx@) == Err::<CheckState, NodeError>(e),
            },
    {
        let is_coinbase_transaction = k == 0;
        if !is_coinbase_transaction && tx.reward != 0 {
            return Err(NodeError::NonZeroFeeOnNonCoinbaseReward);
        }
        let in_sum = match self.resolve_inputs(&tx.inputs, spent) {
            Ok(sum) => sum,
            Err(e) => return Err(e),
        };
        let n_inputs: usize = tx.inputs.len();
        assert(n_inputs <= 0xFFFF_FFFF_FFFF_FFFFu64);
        let input_sum: u128 = if is_coinbase_transaction {
            tx.reward as u128 + in_sum
        } else {
            in_sum
        };
        let transaction_hash = tx.hash();
        let ghost created0 = created@;
        let mut output_sum_acc: u128 = 0;
        let mut j: usize = 0;
        while j < tx.outputs.len()
            invariant
                j <= tx.outputs@.len(),
                output_sum_acc == output_sum(tx.outputs@, j as nat),
                output_sum_acc <= j * 0xFFFF_FFFF_FFFF_FFFFu128,
                created0 == st.created,
                transaction_hash == tx_id(tx@),
                created@ == add_outputs(created0, transaction_hash, tx.outputs@, j as nat),
            decreases tx.outputs.len() - j,
        {
            let output = tx.outputs[j];
            output_sum_acc = output_sum_acc + output.value as u128;
            created.push((transaction_hash, #[verifier::truncate] (j as u32), output));
            j += 1;
        }
        if output_sum_acc > input_sum {
            return Err(NodeError::OutputsExceedInputs);
        }
        if is_coinbase_transaction && input_sum != output_sum_acc {
            return Err(NodeError::CoinbaseFeeNotZero);
        }
        Ok(input_sum - output_sum_acc)
    }

    /// The check phase: every check of the pipeline, in order, without any
    /// change to the node. Returns the outputs to remove and to insert.
    fn check_block(&self, block: &Block, now: u32) -> (r: Result<(Vec<(u32, u32)>, Vec<NewOutput>), NodeError>)
        ensures
            match r {
                Ok(plan) => {
                    &&& validate(self@, block@, now) is Ok
                    &&& validate(self@, block@, now)->Ok_0.spent == plan.0@
                    &&& validate(self@, block@, now)->Ok_0.created == plan.1@
                },
                Err(e) => validate(self@, block@, now) == Err::<CheckState, NodeError>(e),
            },
    {
        let header = block.header;
        let block_hash = block.hash();
        let prev_block_wrapper = match self.blocks.get(&header.previous_block_hash) {
            Some(w) => w,
            None => return Err(NodeError::UnknownParentBlock),
        };
        if header.difficulty_target != self.current_difficulty {
            return Err(NodeError::DifficultyMismatch);
        }
        if !self.check_hash_difficulty(block_hash) {
            return Err(NodeError::InsufficientProofOfWork);
        }
        if header.timestamp <= prev_block_wrapper.header.timestamp {
            return Err(NodeError::NonMonotonicTimestamp);
        }
        if header.timestamp as u64 > now as u64 + MAX_AHEAD_OF_TIME_TIMESTAMP_SECS as u64 {
            return Err(NodeError::TimestampTooFarAhead);
        }
        if block.transactions.len() < 1 {
            return Err(NodeError::MissingCoinbaseTransaction);
        }
        let ghost l = self@.ledger;
        let ghost txs = block@.transactions;
        let mut spent: Vec<(u32, u32)> = Vec::new();
        let mut created: Vec<NewOutput> = Vec::new();
        let mut announced_reward: u64 = 0;
        let mut actual_reward: u128 = BLOCK_VALUE as u128;
        let ghost mut actual_full: int = BLOCK_VALUE as int;
        let mut index: usize = 0;
        while index < block.transactions.len()
            invariant
                l == self@.ledger,
                txs == block@.transactions,
                index <= txs.len(),
                txs.len() > 0,
                header == block@.header,
                self@.chain.contains_key(header.previous_block_hash),
                header.difficulty_target == self@.difficulty,
                meets_difficulty(block_id(header), self@.difficulty),
                header.timestamp > self@.chain[header.previous_block_hash].header.timestamp,
                header.timestamp <= now + MAX_AHEAD_OF_TIME_TIMESTAMP_SECS,
                actual_full >= 0,
                actual_reward == if actual_full >= 0x1_0000_0000_0000_0000 {
                    0x1_0000_0000_0000_0000
                } else {
                    actual_full
                },
                check_transactions(l, txs, index as nat) == Ok::<CheckState, NodeError>(
                    CheckState {
                        spent: spent@,
                        created: created@,
                        announced: announced_reward as int,
                        actual: actual_full,
                    },
                ),
            decreases block.transactions.len() - index,
        {
            let transaction = &block.transactions[index];
            let ghost st = CheckState {
                spent: spent@,
                created: created@,
                announced: announced_reward as int,
                actual: actual_full,
            };
            assert(txs[index as int] == transaction@);
            match self.check_one(index, transaction, &mut spent, &mut created, Ghost(st)) {
                Err(e) => {
                    proof {
                        lemma_check_transactions_err_stays(l, txs, (index + 1) as nat, txs.len());
                    }
                    return Err(e);
                },
                Ok(fee) => {
                    if index == 0 {
                        announced_reward = transaction.reward;
                    }
                    if fee >= 0x1_0000_0000_0000_0000u128 - actual_reward {
                        actual_reward = 0x1_0000_0000_0000_0000u128;
                    } else {
                        actual_reward = actual_reward + fee;
                    }
                    proof {
                        actual_full = actual_full + fee;
                    }
                },
            }
            index += 1;
        }
        if actual_reward != announced_reward as u128 {
            return Err(NodeError::RewardAnnouncementMismatch);
        }
        Ok((spent, created))
    }

    /// Removes every output listed in `spent`, in order, dropping records that become empty.
    fn apply_spends(&mut self, spent: &Vec<(u32, u32)>)
        requires
            old(self).wf(),
        ensures
            final(self).wf(),
            final(self)@ == (NodeView { ledger: spend_all(old(self)@.ledger, spent@), ..old(self)@ }),
    {
        let ghost v0 = self@;
        let mut j: usize = 0;
        while j < spent.len()
            invariant
                j <= spent@.len(),
                self.wf(),
                self@ == (NodeView { ledger: spend_all(v0.ledger, spent@.take(j as int)), ..v0 }),
            decreases spent.len() - j,
        {
            let (t, i) = spent[j];
            let ghost before = self@.ledger;
            match self.unspent_transactions.remove(&t) {
                Some(mut transaction) => {
                    transaction.unspent_outputs.remove(&i);
                    if !transaction.unspent_outputs.is_empty() {
                        self.unspent_transactions.insert(t, transaction);
                    }
                },
                None => {},
            }
            proof {
                assert(spent@.take(j + 1).drop_last() =~= spent@.take(j as int));
                assert(self@.ledger =~= spend(before, t, i));
                assert(self@ == (NodeView { ledger: spend_all(v0.ledger, spent@.take(j + 1)), ..v0 }));
            }
            j += 1;
        }
        proof {
            assert(spent@.take(spent@.len() as int) =~= spent@);
        }
    }

    /// Inserts every output listed in `created`, in order, creating records as needed.
    fn apply_creates(&mut self, created: Vec<NewOutput>)
        requires
            old(self).wf(),
        ensures
            final(self).wf(),
            final(self)@ == (NodeView { ledger: create_all(old(self)@.ledger, created@), ..old(self)@ }),
    {
        let ghost v0 = self@;
        let mut j: usize = 0;
        while j < created.len()
            invariant
                j <= created@.len(),
                self.wf(),
                self@ == (NodeView { ledger: create_all(v0.ledger, created@.take(j as int)), ..v0 }),
            decreases created.len() - j,
        {
            let (t, i, output) = created[j];
            let ghost before = self@.ledger;
            match self.unspent_transactions.remove(&t) {
                Some(mut transaction) => {
                    transaction.unspent_outputs.insert(i, output);
                    self.unspent_transactions.insert(t, transaction);
                },
                None => {
                    let mut transaction = UnspentTransaction::new(t);
                    transaction.unspent_outputs.insert(i, output);
                    self.unspent_transactions.insert(t, transaction);
                },
            }
            proof {
                assert(self.unspent_transactions@[t].unspent_outputs@.contains_key(i));
                assert(created@.take(j + 1).drop_last() =~= created@.take(j as int));
                assert(self@.ledger =~= create(before, t, i, output));
                assert(self@ == (NodeView { ledger: create_all(v0.ledger, created@.take(j + 1)), ..v0 }));
            }
            j += 1;
        }
        proof {
            assert(created@.take(created@.len() as int) =~= created@);
        }
    }

    /// Removes from the pending pool every transaction the block includes.
    fn remove_included_transactions(&mut self, block: &Block)
        requires
            old(self).wf(),
        ensures
            final(self).wf(),
            final(self)@ == (NodeView {
                pool: remove_included(old(self)@.pool, block@.transactions, block@.transactions.len()),
                ..old(self)@
            }),
    {
        let ghost v0 = self@;
        let mut j: usize = 0;
        while j < block.transactions.len()
            invariant
                j <= block@.transactions.len(),
                self.wf(),
                self@ == (NodeView { pool: remove_included(v0.pool, block@.transactions, j as nat), ..v0 }),
            decreases block.transactions.len() - j,
        {
            let transaction_hash = block.transactions[j].hash();
            let ghost before = self@.pool;
            self.transaction_pool.remove(&transaction_hash);
            proof {
                assert(self@.pool =~= before.remove(transaction_hash));
            }
            j += 1;
        }
    }

    /// Whether `id` is among `ids`.
    fn lists(ids: &Vec<u32>, id: u32) -> (r: bool)
        ensures
            r == ids@.contains(id),
    {
        let mut j: usize = 0;
        while j < ids.len()
            invariant
                j <= ids@.len(),
                forall|k: int| 0 <= k < j ==> ids@[k] != id,
            decreases ids.len() - j,
        {
            if ids[j] == id {
                return true;
            }
            j += 1;
        }
        false
    }

    /// Enters `header` in the chain index, links it under its parent and makes it the tip.
    fn register_block(&mut self, header: BlockHeader, block_hash: u32)
        requires
            old(self).wf(),
            block_hash == block_id(header),
        ensures
            final(self).wf(),
            final(self)@ == (NodeView {
                chain: link(
                    old(self)@.chain.insert(block_id(header), ChainEntry { header, successors: Seq::empty() }),
                    header.previous_block_hash,
                    block_id(header),
                ),
                last_block_hash: block_id(header),
                ..old(self)@
            }),
    {
        let parent = header.previous_block_hash;
        self.blocks.insert(block_hash, BlockWrapper::from_header(header));
        let ghost inserted = self@.chain;
        assert(inserted =~= old(self)@.chain.insert(block_hash, ChainEntry { header, successors: Seq::empty() }));
        match self.blocks.remove(&parent) {
            Some(mut wrapper) => {
                if !Self::lists(&wrapper.next_blocks_hashes, block_hash) {
                    wrapper.next_blocks_hashes.push(block_hash);
                }
                self.blocks.insert(parent, wrapper);
            },
            None => {},
        }
        self.last_block_hash = block_hash;
        proof {
            assert(self@.chain =~= link(inserted, parent, block_hash));
        }
    }

    /// Whether `hash` has at least as many leading zero bits as the current difficulty.
    fn check_hash_difficulty(&self, hash: u32) -> (r: bool)
        ensures
            r == meets_difficulty(hash, self@.difficulty),
    {
        hash.leading_zeros() >= self.current_difficulty
    }
}

} // verus!
