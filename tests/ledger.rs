use vitecoin::block::{Block, BlockHeader, BlockWrapper};
use vitecoin::constants::{
    BLOCK_VALUE, GENESIS_BLOCK_HASH, MAX_AHEAD_OF_TIME_TIMESTAMP_SECS, STARTING_DIFFICULTY, VERSION,
};
use vitecoin::encoding::{digest_id, encode_header, encode_transaction};
use vitecoin::node::Node;
use vitecoin::node_error::NodeError;
use vitecoin::transaction::{Transaction, TransactionInput, TransactionOutput, UnspentTransaction};

const NOW: u32 = 1_000_000;

fn output(key: u32, value: u64) -> TransactionOutput {
    TransactionOutput { recipient_public_key: key, value }
}

fn input(prev: u32, index: u32, signature: u32) -> TransactionInput {
    TransactionInput { prev_transaction_hash: prev, output_index: index, signature, sequence: 0 }
}

fn transaction(locktime: u32, reward: u64, inputs: Vec<TransactionInput>, outputs: Vec<TransactionOutput>) -> Transaction {
    Transaction { version: VERSION, reward, inputs, outputs, locktime }
}

fn header(prev: u32, nonce: u32, timestamp: u32) -> BlockHeader {
    BlockHeader {
        version: VERSION,
        previous_block_hash: prev,
        merkle_root: 0,
        timestamp,
        difficulty_target: STARTING_DIFFICULTY,
        nonce,
    }
}

/// A block whose nonce is the first that meets the difficulty.
fn block(prev: u32, timestamp: u32, transactions: Vec<Transaction>) -> Block {
    let mut b = Block { header: header(prev, 0, timestamp), transactions };
    while b.hash().leading_zeros() < STARTING_DIFFICULTY {
        b.header.nonce += 1;
    }
    b
}

/// A block whose nonce is the first that misses the difficulty.
fn weak_block(prev: u32, timestamp: u32, transactions: Vec<Transaction>) -> Block {
    let mut b = Block { header: header(prev, 0, timestamp), transactions };
    while b.hash().leading_zeros() >= STARTING_DIFFICULTY {
        b.header.nonce += 1;
    }
    b
}

/// A node with one committed block, whose coinbase pays the subsidy to key 1.
/// Returns the node and the coinbase's identity.
fn node_with_first_block() -> (Node, u32) {
    let mut node = Node::new();
    let coinbase = transaction(1, BLOCK_VALUE, vec![], vec![output(1, BLOCK_VALUE)]);
    let coinbase_id = coinbase.hash();
    let first = block(GENESIS_BLOCK_HASH, 1, vec![coinbase]);
    let first_id = first.hash();
    assert_eq!(node.add_block_at(first, NOW), Ok(first_id));
    (node, coinbase_id)
}

#[test]
fn scenario_a_coinbase_only_block() {
    let mut node = Node::new();
    let coinbase = transaction(1, BLOCK_VALUE, vec![], vec![output(1, BLOCK_VALUE)]);
    let coinbase_id = coinbase.hash();
    let first = block(GENESIS_BLOCK_HASH, 1, vec![coinbase]);
    let first_id = first.hash();
    assert_eq!(node.add_block_at(first, NOW), Ok(first_id));
    assert_eq!(node.get_last_block_hash(), first_id);
    assert_eq!(node.unspent_transaction_count(), 1);
    assert_eq!(node.unspent_output_count(coinbase_id), 1);
    assert_eq!(node.lookup_output(coinbase_id, 0), Some(output(1, BLOCK_VALUE)));
}

#[test]
fn scenario_b_spend_with_fee() {
    let (mut node, first_coinbase) = node_with_first_block();
    let spend = transaction(2, 0, vec![input(first_coinbase, 0, 1)], vec![output(2, 60), output(1, 35)]);
    let spend_id = spend.hash();
    let fee = BLOCK_VALUE - 60 - 35;
    assert_eq!(fee, 5);
    let coinbase = transaction(3, BLOCK_VALUE + fee, vec![], vec![output(3, BLOCK_VALUE + fee)]);
    let coinbase_id = coinbase.hash();
    let second = block(node.get_last_block_hash(), 2, vec![coinbase, spend]);
    let second_id = second.hash();
    assert_eq!(node.add_block_at(second, NOW), Ok(second_id));
    assert_eq!(node.unspent_transaction_count(), 2);
    assert_eq!(node.lookup_output(first_coinbase, 0), None);
    assert_eq!(node.unspent_output_count(first_coinbase), 0);
    assert_eq!(node.unspent_output_count(spend_id), 2);
    assert_eq!(node.lookup_output(spend_id, 0), Some(output(2, 60)));
    assert_eq!(node.lookup_output(spend_id, 1), Some(output(1, 35)));
    assert_eq!(node.lookup_output(coinbase_id, 0), Some(output(3, 105)));
    assert_eq!(node.get_last_block_hash(), second_id);
}

#[test]
fn scenario_c_unknown_parent() {
    let (mut node, _) = node_with_first_block();
    let tip = node.get_last_block_hash();
    let coinbase = transaction(2, BLOCK_VALUE, vec![], vec![output(1, BLOCK_VALUE)]);
    let mut unknown = 123456;
    while node.get_block(unknown).is_some() {
        unknown += 1;
    }
    let orphan = block(unknown, 2, vec![coinbase]);
    assert_eq!(node.add_block_at(orphan, NOW), Err(NodeError::UnknownParentBlock));
    assert_eq!(node.get_last_block_hash(), tip);
}

#[test]
fn scenario_d_no_transactions() {
    let (mut node, _) = node_with_first_block();
    let empty = block(node.get_last_block_hash(), 2, vec![]);
    assert_eq!(node.add_block_at(empty, NOW), Err(NodeError::MissingCoinbaseTransaction));
}

#[test]
fn scenario_e_timestamp_too_far_ahead() {
    let mut node = Node::new();
    let coinbase = transaction(1, BLOCK_VALUE, vec![], vec![output(1, BLOCK_VALUE)]);
    let ahead = block(GENESIS_BLOCK_HASH, NOW + MAX_AHEAD_OF_TIME_TIMESTAMP_SECS + 1, vec![coinbase]);
    assert_eq!(node.add_block_at(ahead, NOW), Err(NodeError::TimestampTooFarAhead));
    assert_eq!(node.unspent_transaction_count(), 0);
}

#[test]
fn timestamp_at_tolerance_is_accepted() {
    let mut node = Node::new();
    let coinbase = transaction(1, BLOCK_VALUE, vec![], vec![output(1, BLOCK_VALUE)]);
    let edge = block(GENESIS_BLOCK_HASH, NOW + MAX_AHEAD_OF_TIME_TIMESTAMP_SECS, vec![coinbase]);
    let edge_id = edge.hash();
    assert_eq!(node.add_block_at(edge, NOW), Ok(edge_id));
}

#[test]
fn timestamp_far_ahead_of_the_clock() {
    let mut node = Node::new();
    let coinbase = transaction(1, BLOCK_VALUE, vec![], vec![output(1, BLOCK_VALUE)]);
    let ahead = block(GENESIS_BLOCK_HASH, u32::MAX, vec![coinbase]);
    assert_eq!(node.add_block(ahead), Err(NodeError::TimestampTooFarAhead));
}

#[test]
fn block_checked_against_the_clock() {
    let mut node = Node::new();
    let coinbase = transaction(1, BLOCK_VALUE, vec![], vec![output(1, BLOCK_VALUE)]);
    let coinbase_id = coinbase.hash();
    let first = block(GENESIS_BLOCK_HASH, 1, vec![coinbase]);
    let first_id = first.hash();
    assert_eq!(node.add_block(first), Ok(first_id));
    assert_eq!(node.lookup_output(coinbase_id, 0), Some(output(1, BLOCK_VALUE)));
}

#[test]
fn difficulty_target_mismatch() {
    let mut node = Node::new();
    let coinbase = transaction(1, BLOCK_VALUE, vec![], vec![output(1, BLOCK_VALUE)]);
    let mut b = Block { header: header(GENESIS_BLOCK_HASH, 0, 1), transactions: vec![coinbase] };
    b.header.difficulty_target = STARTING_DIFFICULTY + 1;
    while b.hash().leading_zeros() < STARTING_DIFFICULTY + 1 {
        b.header.nonce += 1;
    }
    assert_eq!(node.add_block_at(b, NOW), Err(NodeError::DifficultyMismatch));
}

#[test]
fn insufficient_proof_of_work() {
    let mut node = Node::new();
    let coinbase = transaction(1, BLOCK_VALUE, vec![], vec![output(1, BLOCK_VALUE)]);
    let weak = weak_block(GENESIS_BLOCK_HASH, 1, vec![coinbase]);
    assert!(weak.hash().leading_zeros() < STARTING_DIFFICULTY);
    assert_eq!(node.add_block_at(weak, NOW), Err(NodeError::InsufficientProofOfWork));
    assert_eq!(node.get_last_block_hash(), GENESIS_BLOCK_HASH);
}

#[test]
fn timestamp_not_after_parent() {
    let (mut node, _) = node_with_first_block();
    let coinbase = transaction(2, BLOCK_VALUE, vec![], vec![output(1, BLOCK_VALUE)]);
    let same_time = block(node.get_last_block_hash(), 1, vec![coinbase]);
    assert_eq!(node.add_block_at(same_time, NOW), Err(NodeError::NonMonotonicTimestamp));
}

/// Submits, on top of the first block, a block of a fresh coinbase followed by `rest`.
fn submit_after_coinbase(node: &mut Node, reward: u64, rest: Vec<Transaction>) -> Result<u32, NodeError> {
    let mut transactions = vec![transaction(3, reward, vec![], vec![output(3, reward)])];
    transactions.extend(rest);
    let b = block(node.get_last_block_hash(), 2, transactions);
    node.add_block_at(b, NOW)
}

#[test]
fn unknown_input_transaction() {
    let (mut node, first_coinbase) = node_with_first_block();
    let mut unknown = 99;
    while unknown == first_coinbase {
        unknown += 1;
    }
    let spend = transaction(2, 0, vec![input(unknown, 0, 1)], vec![output(2, 10)]);
    assert_eq!(submit_after_coinbase(&mut node, BLOCK_VALUE, vec![spend]), Err(NodeError::UnknownInputTransaction));
}

#[test]
fn unknown_input_output_index() {
    let (mut node, first_coinbase) = node_with_first_block();
    let spend = transaction(2, 0, vec![input(first_coinbase, 1, 1)], vec![output(2, 10)]);
    assert_eq!(submit_after_coinbase(&mut node, BLOCK_VALUE, vec![spend]), Err(NodeError::UnknownInputOutputIndex));
}

#[test]
fn invalid_authorization() {
    let (mut node, first_coinbase) = node_with_first_block();
    let spend = transaction(2, 0, vec![input(first_coinbase, 0, 7)], vec![output(7, 100)]);
    assert_eq!(submit_after_coinbase(&mut node, BLOCK_VALUE, vec![spend]), Err(NodeError::InvalidAuthorization));
}

#[test]
fn outputs_exceed_inputs() {
    let (mut node, first_coinbase) = node_with_first_block();
    let spend = transaction(2, 0, vec![input(first_coinbase, 0, 1)], vec![output(2, 101)]);
    assert_eq!(submit_after_coinbase(&mut node, BLOCK_VALUE, vec![spend]), Err(NodeError::OutputsExceedInputs));
}

#[test]
fn reward_on_non_coinbase_transaction() {
    let (mut node, first_coinbase) = node_with_first_block();
    let spend = transaction(2, 1, vec![input(first_coinbase, 0, 1)], vec![output(2, 100)]);
    assert_eq!(
        submit_after_coinbase(&mut node, BLOCK_VALUE, vec![spend]),
        Err(NodeError::NonZeroFeeOnNonCoinbaseReward)
    );
}

#[test]
fn coinbase_outputs_below_reward() {
    let mut node = Node::new();
    let coinbase = transaction(1, BLOCK_VALUE, vec![], vec![output(1, 90)]);
    let b = block(GENESIS_BLOCK_HASH, 1, vec![coinbase]);
    assert_eq!(node.add_block_at(b, NOW), Err(NodeError::CoinbaseFeeNotZero));
}

#[test]
fn coinbase_outputs_above_reward() {
    let mut node = Node::new();
    let coinbase = transaction(1, BLOCK_VALUE, vec![], vec![output(1, 110)]);
    let b = block(GENESIS_BLOCK_HASH, 1, vec![coinbase]);
    assert_eq!(node.add_block_at(b, NOW), Err(NodeError::OutputsExceedInputs));
}

#[test]
fn reward_announcement_too_low() {
    let mut node = Node::new();
    let coinbase = transaction(1, 90, vec![], vec![output(1, 90)]);
    let b = block(GENESIS_BLOCK_HASH, 1, vec![coinbase]);
    assert_eq!(node.add_block_at(b, NOW), Err(NodeError::RewardAnnouncementMismatch));
}

#[test]
fn reward_announcement_missing_fee() {
    let (mut node, first_coinbase) = node_with_first_block();
    let spend = transaction(2, 0, vec![input(first_coinbase, 0, 1)], vec![output(2, 90)]);
    assert_eq!(
        submit_after_coinbase(&mut node, BLOCK_VALUE, vec![spend]),
        Err(NodeError::RewardAnnouncementMismatch)
    );
    assert_eq!(node.lookup_output(first_coinbase, 0), Some(output(1, BLOCK_VALUE)));
}

#[test]
fn double_spend_within_block() {
    let (mut node, first_coinbase) = node_with_first_block();
    let first = transaction(2, 0, vec![input(first_coinbase, 0, 1)], vec![output(2, 100)]);
    let second = transaction(4, 0, vec![input(first_coinbase, 0, 1)], vec![output(4, 100)]);
    assert_eq!(
        submit_after_coinbase(&mut node, BLOCK_VALUE, vec![first, second]),
        Err(NodeError::UnknownInputOutputIndex)
    );
    assert_eq!(node.lookup_output(first_coinbase, 0), Some(output(1, BLOCK_VALUE)));
}

#[test]
fn rejection_is_idempotent() {
    let (mut node, first_coinbase) = node_with_first_block();
    let tip = node.get_last_block_hash();
    let make = || {
        let spend = transaction(2, 0, vec![input(first_coinbase, 0, 9)], vec![output(2, 50)]);
        let coinbase = transaction(3, BLOCK_VALUE + 50, vec![], vec![output(3, BLOCK_VALUE + 50)]);
        block(tip, 2, vec![coinbase, spend])
    };
    let first = node.add_block_at(make(), NOW);
    assert_eq!(first, Err(NodeError::InvalidAuthorization));
    assert_eq!(node.add_block_at(make(), NOW), first);
    assert_eq!(node.get_last_block_hash(), tip);
    assert_eq!(node.unspent_outputs(), vec![(first_coinbase, 0, output(1, BLOCK_VALUE))]);
}

#[test]
fn rejection_is_atomic() {
    let (mut node, first_coinbase) = node_with_first_block();
    let tip = node.get_last_block_hash();
    let good = transaction(2, 0, vec![input(first_coinbase, 0, 1)], vec![output(2, 100)]);
    let good_id = node.add_transaction(good.clone());
    let bad = transaction(4, 0, vec![input(first_coinbase, 5, 1)], vec![output(4, 1)]);
    let coinbase = transaction(3, BLOCK_VALUE, vec![], vec![output(3, BLOCK_VALUE)]);
    let coinbase_id = coinbase.hash();
    let b = block(tip, 2, vec![coinbase, good, bad]);
    let b_id = b.hash();
    assert_eq!(node.add_block_at(b, NOW), Err(NodeError::UnknownInputOutputIndex));
    assert_eq!(node.unspent_outputs(), vec![(first_coinbase, 0, output(1, BLOCK_VALUE))]);
    assert_eq!(node.lookup_output(good_id, 0), None);
    assert_eq!(node.lookup_output(coinbase_id, 0), None);
    assert_eq!(node.get_awaiting_transactions().len(), 1);
    assert!(node.get_block(b_id).is_none());
    assert!(node.get_block(tip).unwrap().next_blocks_hashes.is_empty());
    assert_eq!(node.get_last_block_hash(), tip);
}

#[test]
fn conservation_of_value() {
    let (mut node, first_coinbase) = node_with_first_block();
    let spend = transaction(2, 0, vec![input(first_coinbase, 0, 1)], vec![output(2, 30), output(5, 20)]);
    let coinbase = transaction(3, BLOCK_VALUE + 50, vec![], vec![output(3, 120), output(6, 30)]);
    let b = block(node.get_last_block_hash(), 2, vec![coinbase, spend]);
    let b_id = b.hash();
    assert_eq!(node.add_block_at(b, NOW), Ok(b_id));
    let created: u64 = node.unspent_outputs().iter().map(|e| e.2.value).sum();
    let consumed = BLOCK_VALUE;
    assert_eq!(created, consumed + BLOCK_VALUE);
}

#[test]
fn pending_pool_submit_and_drain() {
    let (mut node, first_coinbase) = node_with_first_block();
    let spend = transaction(2, 0, vec![input(first_coinbase, 0, 1)], vec![output(2, 100)]);
    let spend_id = node.add_transaction(spend.clone());
    assert_eq!(spend_id, spend.hash());
    let other = transaction(8, 0, vec![], vec![]);
    let other_id = node.add_transaction(other.clone());
    assert_eq!(node.add_transaction(other), other_id);
    let waiting = node.get_awaiting_transactions();
    assert_eq!(waiting.len(), 2);
    let mut locktimes: Vec<u32> = waiting.iter().map(|t| t.locktime).collect();
    locktimes.sort();
    assert_eq!(locktimes, vec![2, 8]);
    assert_eq!(node.get_awaiting_transactions().len(), 2);

    let coinbase = transaction(3, BLOCK_VALUE, vec![], vec![output(3, BLOCK_VALUE)]);
    let b = block(node.get_last_block_hash(), 2, vec![coinbase, spend]);
    let b_id = b.hash();
    assert_eq!(node.add_block_at(b, NOW), Ok(b_id));
    let waiting = node.get_awaiting_transactions();
    assert_eq!(waiting.len(), 1);
    assert_eq!(waiting[0].locktime, 8);
}

#[test]
fn chain_index_links_successors() {
    let mut node = Node::new();
    let genesis = node.get_block(GENESIS_BLOCK_HASH).unwrap();
    assert_eq!(genesis.header, BlockHeader::genesis());
    assert!(genesis.next_blocks_hashes.is_empty());

    let coinbase = transaction(1, BLOCK_VALUE, vec![], vec![output(1, BLOCK_VALUE)]);
    let first = block(GENESIS_BLOCK_HASH, 1, vec![coinbase]);
    let first_id = first.hash();
    assert!(node.get_block(first_id).is_none());
    assert_eq!(node.add_block_at(first, NOW), Ok(first_id));
    let coinbase = transaction(2, BLOCK_VALUE, vec![], vec![output(1, BLOCK_VALUE)]);
    let rival = block(GENESIS_BLOCK_HASH, 2, vec![coinbase]);
    let rival_id = rival.hash();
    assert_eq!(node.add_block_at(rival, NOW), Ok(rival_id));
    assert_eq!(node.get_last_block_hash(), rival_id);

    let genesis = node.get_block(GENESIS_BLOCK_HASH).unwrap();
    assert_eq!(genesis.next_blocks_hashes, vec![first_id, rival_id]);
    let child = node.get_block(first_id).unwrap();
    assert_eq!(child.header.timestamp, 1);
    assert!(child.next_blocks_hashes.is_empty());
}

#[test]
fn walkthrough_of_three_blocks() {
    let mut node = Node::new();
    let (bob, john, alice_1, alice_2, alice_3, eve) = (1, 2, 3, 4, 5, 6);

    let bob_coinbase = transaction(1, BLOCK_VALUE, vec![], vec![output(bob, BLOCK_VALUE)]);
    let bob_coinbase_id = bob_coinbase.hash();
    let bob_block = block(node.get_last_block_hash(), 1, vec![bob_coinbase]);
    let bob_block_id = bob_block.hash();
    assert_eq!(node.add_block_at(bob_block, NOW), Ok(bob_block_id));

    let bob_payment = node.add_transaction(transaction(
        2,
        0,
        vec![input(bob_coinbase_id, 0, bob)],
        vec![output(john, 60), output(bob, 35)],
    ));
    let alice_coinbase = transaction(3, BLOCK_VALUE + 5, vec![], vec![output(alice_1, 40), output(alice_2, 65)]);
    let alice_coinbase_id = alice_coinbase.hash();
    let mut transactions = vec![alice_coinbase];
    transactions.append(&mut node.get_awaiting_transactions());
    let alice_block = block(node.get_last_block_hash(), 2, transactions);
    let alice_block_id = alice_block.hash();
    assert_eq!(node.add_block_at(alice_block, NOW), Ok(alice_block_id));
    assert!(node.get_awaiting_transactions().is_empty());

    let reward = BLOCK_VALUE + 105 + 60 - 10 - 1;
    let revenge_coinbase = transaction(4, reward, vec![], vec![output(alice_3, reward)]);
    let revenge_coinbase_id = revenge_coinbase.hash();
    let theft = transaction(
        5,
        0,
        vec![input(bob_payment, 0, john), input(alice_coinbase_id, 0, alice_1), input(alice_coinbase_id, 1, alice_2)],
        vec![output(eve, 10), output(john, 1)],
    );
    let theft_id = theft.hash();
    let revenge = block(node.get_last_block_hash(), 3, vec![revenge_coinbase, theft]);
    let revenge_id = revenge.hash();
    assert_eq!(node.add_block_at(revenge, NOW), Ok(revenge_id));
    assert_eq!(node.lookup_output(bob_payment, 1), Some(output(bob, 35)));
    assert_eq!(node.lookup_output(bob_payment, 0), None);
    assert_eq!(node.unspent_transaction_count(), 3);
    assert_eq!(node.lookup_output(revenge_coinbase_id, 0), Some(output(alice_3, 254)));
    assert_eq!(node.lookup_output(theft_id, 0), Some(output(eve, 10)));
    assert_eq!(node.lookup_output(theft_id, 1), Some(output(john, 1)));
}

#[test]
fn unspent_outputs_lists_the_ledger() {
    let (mut node, first_coinbase) = node_with_first_block();
    assert_eq!(node.unspent_outputs(), vec![(first_coinbase, 0, output(1, BLOCK_VALUE))]);
    let spend = transaction(2, 0, vec![input(first_coinbase, 0, 1)], vec![output(2, 60), output(1, 35)]);
    let spend_id = spend.hash();
    let coinbase = transaction(3, BLOCK_VALUE + 5, vec![], vec![output(3, BLOCK_VALUE + 5)]);
    let coinbase_id = coinbase.hash();
    let b = block(node.get_last_block_hash(), 2, vec![coinbase, spend]);
    let b_id = b.hash();
    assert_eq!(node.add_block_at(b, NOW), Ok(b_id));
    let mut listed = node.unspent_outputs();
    listed.sort_by_key(|e| (e.0, e.1));
    let mut expected = vec![(spend_id, 0, output(2, 60)), (spend_id, 1, output(1, 35)), (coinbase_id, 0, output(3, 105))];
    expected.sort_by_key(|e| (e.0, e.1));
    assert_eq!(listed, expected);
    assert!(Node::new().unspent_outputs().is_empty());
}

#[test]
fn identities_and_constructors() {
    let t = transaction(42, 0, vec![], vec![]);
    assert_eq!(t.hash(), digest_id(&encode_transaction(&t)));
    assert_ne!(t.hash(), transaction(43, 0, vec![], vec![]).hash());
    let b = Block { header: header(0, 7, 5), transactions: vec![] };
    assert_eq!(b.hash(), digest_id(&encode_header(&b.header)));
    assert_ne!(b.hash(), Block { header: header(0, 8, 5), transactions: vec![] }.hash());
    let g = BlockHeader::genesis();
    assert_eq!((g.version, g.previous_block_hash, g.merkle_root, g.timestamp, g.difficulty_target, g.nonce), (VERSION, 0, 0, 0, 0, 0));
    let w = BlockWrapper::from_header(header(1, 2, 3));
    assert_eq!(w.header, header(1, 2, 3));
    assert!(w.next_blocks_hashes.is_empty());
    let u = UnspentTransaction::new(9);
    assert_eq!(u.hash, 9);
    assert!(u.unspent_outputs.is_empty());
    let c = t.clone();
    assert_eq!(c.locktime, 42);
    assert_eq!(c.hash(), t.hash());
}
