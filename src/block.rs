use crate::constants::VERSION;
use crate::transaction::{Transaction, TransactionView};
use crate::encoding::{digest_id, encode_header, header_bytes, id_of_digest, sha256_of};
use vstd::prelude::*;

verus! {

/// Header of a block. `previous_block_hash` names the parent block.
#[derive(Clone, Copy, Debug, PartialEq, Eq, Structural)]
pub struct BlockHeader {
    pub version: u32,
    pub previous_block_hash: u32,
    pub merkle_root: u32,
    pub timestamp: u32,
    pub difficulty_target: u32,
    pub nonce: u32,
}

/// The header of the genesis entry: version set, every other field zero.
pub open spec fn genesis_header() -> BlockHeader {
    BlockHeader {
        version: VERSION,
        previous_block_hash: 0,
        merkle_root: 0,
        timestamp: 0,
        difficulty_target: 0,
        nonce: 0,
    }
}

impl BlockHeader {
    /// The header of the genesis entry.
    pub fn genesis() -> (r: Self)
        ensures
            r == genesis_header(),
    {
        BlockHeader {
            version: VERSION,
            previous_block_hash: 0x0,
            merkle_root: 0x0,
            timestamp: 0,
            difficulty_target: 0,
            nonce: 0,
        }
    }
}

/// A candidate block: a header and its transactions, the coinbase first.
#[derive(Debug)]
pub struct Block {
    pub header: BlockHeader,
    pub transactions: Vec<Transaction>,
}

pub struct BlockView {
    pub header: BlockHeader,
    pub transactions: Seq<TransactionView>,
}

impl View for Block {
    type V = BlockView;

    open spec fn view(&self) -> BlockView {
        BlockView { header: self.header, transactions: self.transactions@.map_values(|t: Transaction| t@) }
    }
}

/// Identity of a block, derived from the digest of its header's canonical
/// bytes; the proof-of-work predicate is evaluated on it.
pub open spec fn block_id(h: BlockHeader) -> u32 {
    id_of_digest(sha256_of(header_bytes(h)))
}

impl Block {
    /// The block's identity, the scalar its proof of work is judged on.
    pub fn hash(&self) -> (r: u32)
        ensures
            r == block_id(self.header),
    {
        digest_id(&encode_header(&self.header))
    }
}

/// An entry of the chain index: a committed header and the blocks that name it as parent.
#[derive(Debug)]
pub struct BlockWrapper {
    pub header: BlockHeader,
    pub next_blocks_hashes: Vec<u32>,
}

pub struct ChainEntry {
    pub header: BlockHeader,
    pub successors: Seq<u32>,
}

impl View for BlockWrapper {
    type V = ChainEntry;

    open spec fn view(&self) -> ChainEntry {
        ChainEntry { header: self.header, successors: self.next_blocks_hashes@ }
    }
}

impl BlockWrapper {
    /// A chain entry for `header`, with no successors yet.
    pub fn from_header(header: BlockHeader) -> (r: Self)
        ensures
            r@ == (ChainEntry { header, successors: Seq::<u32>::empty() }),
    {
        BlockWrapper { header, next_blocks_hashes: Vec::new() }
    }
}

} // verus!
