//! Canonical byte representation of headers and transactions, and the
//! identities derived from their SHA-256 digests.
use crate::block::BlockHeader;
use crate::transaction::{Transaction, TransactionInput, TransactionOutput, TransactionView};
use vstd::prelude::*;

verus! {

/// Big-endian bytes of a 32-bit value.
pub open spec fn be32(x: u32) -> Seq<u8> {
    seq![(x >> 24u32) as u8, (x >> 16u32) as u8, (x >> 8u32) as u8, x as u8]
}

/// Big-endian bytes of a 64-bit value.
pub open spec fn be64(x: u64) -> Seq<u8> {
    be32((x >> 32u64) as u32) + be32(x as u32)
}

pub open spec fn header_bytes(h: BlockHeader) -> Seq<u8> {
    be32(h.version) + be32(h.previous_block_hash) + be32(h.merkle_root) + be32(h.timestamp) + be32(
        h.difficulty_target,
    ) + be32(h.nonce)
}

pub open spec fn input_bytes(i: TransactionInput) -> Seq<u8> {
    be32(i.prev_transaction_hash) + be32(i.output_index) + be32(i.signature) + be32(i.sequence)
}

pub open spec fn output_bytes(o: TransactionOutput) -> Seq<u8> {
    be32(o.recipient_public_key) + be64(o.value)
}

/// Bytes of the first `n` inputs, one after the other.
pub open spec fn inputs_bytes(s: Seq<TransactionInput>, n: nat) -> Seq<u8>
    decreases n,
{
    if n == 0 {
        Seq::empty()
    } else {
        inputs_bytes(s, (n - 1) as nat) + input_bytes(s[n - 1])
    }
}

/// Bytes of the first `n` outputs, one after the other.
pub open spec fn outputs_bytes(s: Seq<TransactionOutput>, n: nat) -> Seq<u8>
    decreases n,
{
    if n == 0 {
        Seq::empty()
    } else {
        outputs_bytes(s, (n - 1) as nat) + output_bytes(s[n - 1])
    }
}

/// Every field of the transaction, each sequence preceded by its length.
pub open spec fn transaction_bytes(t: TransactionView) -> Seq<u8> {
    be32(t.version) + be64(t.reward) + be32(t.inputs.len() as u32) + inputs_bytes(t.inputs, t.inputs.len())
        + be32(t.outputs.len() as u32) + outputs_bytes(t.outputs, t.outputs.len()) + be32(t.locktime)
}

/// The SHA-256 digest of `data`.
pub uninterp spec fn sha256_of(data: Seq<u8>) -> Seq<u8>;

/// An identity: the first four bytes of a digest, big-endian.
pub open spec fn id_of_digest(d: Seq<u8>) -> u32 {
    (d[0] as int * 0x100_0000 + d[1] as int * 0x1_0000 + d[2] as int * 0x100 + d[3] as int) as u32
}

/// Relies on sha2's `Sha256::digest` (the `Digest` trait of the digest crate):
/// the 32-byte SHA-256 digest of `data`, a function of `data` alone.
#[verifier::external_body]
fn sha256(data: &Vec<u8>) -> (r: Vec<u8>)
    ensures
        r@ == sha256_of(data@),
        r@.len() == 32,
{
    <sha2::Sha256 as sha2::Digest>::digest(data.as_slice()).to_vec()
}

/// The identity that the first four bytes of digest `d` give.
pub fn id_from_digest(d: &Vec<u8>) -> (r: u32)
    requires
        d@.len() >= 4,
    ensures
        r == id_of_digest(d@),
{
    (d[0] as u32) * 0x100_0000 + (d[1] as u32) * 0x1_0000 + (d[2] as u32) * 0x100 + (d[3] as u32)
}

/// The identity of the bytes `data`: the start of their SHA-256 digest.
pub fn digest_id(data: &Vec<u8>) -> (r: u32)
    ensures
        r == id_of_digest(sha256_of(data@)),
{
    let d = sha256(data);
    id_from_digest(&d)
}

fn push_be32(out: &mut Vec<u8>, x: u32)
    ensures
        final(out)@ == old(out)@ + be32(x),
{
    out.push(#[verifier::truncate] ((x >> 24u32) as u8));
    out.push(#[verifier::truncate] ((x >> 16u32) as u8));
    out.push(#[verifier::truncate] ((x >> 8u32) as u8));
    out.push(#[verifier::truncate] (x as u8));
    assert(final(out)@ =~= old(out)@ + be32(x));
}

fn push_be64(out: &mut Vec<u8>, x: u64)
    ensures
        final(out)@ == old(out)@ + be64(x),
{
    push_be32(out, #[verifier::truncate] ((x >> 32u64) as u32));
    push_be32(out, #[verifier::truncate] (x as u32));
    assert(final(out)@ =~= old(out)@ + be64(x));
}

/// The canonical bytes of a header.
pub fn encode_header(h: &BlockHeader) -> (r: Vec<u8>)
    ensures
        r@ == header_bytes(*h),
{
    let mut out: Vec<u8> = Vec::new();
    push_be32(&mut out, h.version);
    push_be32(&mut out, h.previous_block_hash);
    push_be32(&mut out, h.merkle_root);
    push_be32(&mut out, h.timestamp);
    push_be32(&mut out, h.difficulty_target);
    push_be32(&mut out, h.nonce);
    assert(out@ =~= header_bytes(*h));
    out
}

/// The canonical bytes of a transaction.
pub fn encode_transaction(t: &Transaction) -> (r: Vec<u8>)
    ensures
        r@ == transaction_bytes(t@),
{
    let mut out: Vec<u8> = Vec::new();
    push_be32(&mut out, t.version);
    push_be64(&mut out, t.reward);
    push_be32(&mut out, #[verifier::truncate] (t.inputs.len() as u32));
    let ghost start = out@;
    let mut j: usize = 0;
    while j < t.inputs.len()
        invariant
            j <= t.inputs@.len(),
            out@ == start + inputs_bytes(t.inputs@, j as nat),
        decreases t.inputs.len() - j,
    {
        let i = t.inputs[j];
        push_be32(&mut out, i.prev_transaction_hash);
        push_be32(&mut out, i.output_index);
        push_be32(&mut out, i.signature);
        push_be32(&mut out, i.sequence);
        assert(out@ =~= start + inputs_bytes(t.inputs@, (j + 1) as nat));
        j += 1;
    }
    push_be32(&mut out, #[verifier::truncate] (t.outputs.len() as u32));
    let ghost middle = out@;
    let mut k: usize = 0;
    while k < t.outputs.len()
        invariant
            k <= t.outputs@.len(),
            out@ == middle + outputs_bytes(t.outputs@, k as nat),
        decreases t.outputs.len() - k,
    {
        let o = t.outputs[k];
        push_be32(&mut out, o.recipient_public_key);
        push_be64(&mut out, o.value);
        assert(out@ =~= middle + outputs_bytes(t.outputs@, (k + 1) as nat));
        k += 1;
    }
    push_be32(&mut out, t.locktime);
    assert(out@ =~= transaction_bytes(t@));
    out
}

} // verus!
