//! Challenge rolling and the recall of a tape and a segment.
use vstd::prelude::*;
use vstd::bytes::spec_u64_from_le_bytes;
use crate::consts::SLOTHASH_SIZE;
use crate::hash;
use crate::hash::blake3_of;
use crate::state::TapeError;

verus! {

/// The next challenge after `current`, given the newest slot-hash entry.
pub open spec fn next_challenge_of(current: Seq<u8>, slot_hashes: Seq<u8>) -> Seq<u8> {
    blake3_of(current + slot_hashes.subrange(0, SLOTHASH_SIZE as int))
}

/// The challenge of one miner in one block.
pub open spec fn challenge_of(block_challenge: Seq<u8>, miner_challenge: Seq<u8>) -> Seq<u8> {
    blake3_of(block_challenge + miner_challenge)
}

/// The 1-based number of the tape that `challenge` recalls among `total_tapes`.
pub open spec fn recall_tape_of(challenge: Seq<u8>, total_tapes: u64) -> u64 {
    if total_tapes == 0 {
        1
    } else {
        (spec_u64_from_le_bytes(challenge.subrange(0, 8)) % total_tapes + 1) as u64
    }
}

/// The index of the segment that `challenge` recalls among `total_segments`.
pub open spec fn recall_segment_of(challenge: Seq<u8>, total_segments: u64) -> u64 {
    if total_segments == 0 {
        0
    } else {
        (spec_u64_from_le_bytes(challenge.subrange(8, 16)) % total_segments) as u64
    }
}

/// The next challenge: the digest of `current_challenge` followed by the
/// first slot-hash entry (a slot and a digest) of `slot_hashes`.
pub fn compute_next_challenge(current_challenge: &[u8; 32], slot_hashes: &[u8]) -> (r: Result<[u8; 32], TapeError>)
    ensures
        slot_hashes@.len() < SLOTHASH_SIZE ==> r == Err::<[u8; 32], TapeError>(TapeError::InvalidAccountData),
        slot_hashes@.len() >= SLOTHASH_SIZE ==> r is Ok && r->Ok_0@ == next_challenge_of(current_challenge@, slot_hashes@),
{
    if slot_hashes.len() < SLOTHASH_SIZE {
        return Err(TapeError::InvalidAccountData);
    }
    let slothash = vstd::slice::slice_subrange(slot_hashes, 0, SLOTHASH_SIZE);
    let mut buf: Vec<u8> = Vec::new();
    hash::append_bytes(&mut buf, current_challenge.as_slice());
    hash::append_bytes(&mut buf, slothash);
    Ok(hash::hash(buf.as_slice()).to_bytes())
}

/// The challenge of a miner in a block: the digest of the block's challenge
/// followed by the miner's.
pub fn compute_challenge(block_challenge: &[u8; 32], miner_challenge: &[u8; 32]) -> (r: [u8; 32])
    ensures
        r@ == challenge_of(block_challenge@, miner_challenge@),
{
    let mut buf: Vec<u8> = Vec::new();
    hash::append_bytes(&mut buf, block_challenge.as_slice());
    hash::append_bytes(&mut buf, miner_challenge.as_slice());
    hash::hash(buf.as_slice()).to_bytes()
}

/// The recalled tape: the first eight bytes of `challenge`, read as a
/// little-endian number, modulo `total_tapes`, plus one; 1 where there are no
/// tapes.
pub fn compute_recall_tape(challenge: &[u8; 32], total_tapes: u64) -> (r: u64)
    ensures
        r == recall_tape_of(challenge@, total_tapes),
        1 <= r,
        total_tapes > 0 ==> r <= total_tapes,
{
    if total_tapes == 0 {
        return 1;
    }
    let head = vstd::slice::slice_subrange(challenge.as_slice(), 0, 8);
    let n = vstd::bytes::u64_from_le_bytes(head);
    n % total_tapes + 1
}

/// The recalled segment: bytes 8 to 16 of `challenge`, read as a
/// little-endian number, modulo `total_segments`; 0 where there are none.
pub fn compute_recall_segment(challenge: &[u8; 32], total_segments: u64) -> (r: u64)
    ensures
        r == recall_segment_of(challenge@, total_segments),
        total_segments > 0 ==> r < total_segments,
{
    if total_segments == 0 {
        return 0;
    }
    let part = vstd::slice::slice_subrange(challenge.as_slice(), 8, 16);
    let n = vstd::bytes::u64_from_le_bytes(part);
    n % total_segments
}

/// With no tapes and no segments the recall falls back to tape 1 and segment 0.
pub proof fn lemma_recall_empty(challenge: Seq<u8>)
    ensures
        recall_tape_of(challenge, 0) == 1,
        recall_segment_of(challenge, 0) == 0,
{
}

} // verus!
