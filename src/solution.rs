//! Verification of a submission's proof of work and proof of access.
use vstd::prelude::*;
use crate::challenge::{compute_recall_segment, recall_segment_of};
use crate::consts::SEGMENT_PROOF_LEN;
use crate::hash;
use crate::hash::{blake3_of, hashes_view};
use crate::state::{rent_per_block_of, Epoch, PoA, PoW, ProofPath, Pubkey, Tape, TapeError};
use crate::tape::{compute_leaf, segment_leaf};
use crate::tree::{path_root, verify};

verus! {

/// What `crankx` reports as the difficulty of a work solution.
pub uninterp spec fn pow_difficulty_of(digest: Seq<u8>, nonce: Seq<u8>) -> u32;

/// Whether `crankx` accepts a work solution for a challenge and segment.
pub uninterp spec fn pow_accepts(digest: Seq<u8>, nonce: Seq<u8>, challenge: Seq<u8>, data: Seq<u8>) -> bool;

/// Leading zero bits of one byte.
pub open spec fn byte_leading_zeros(b: u8) -> nat {
    if b >= 128 {
        0
    } else if b >= 64 {
        1
    } else if b >= 32 {
        2
    } else if b >= 16 {
        3
    } else if b >= 8 {
        4
    } else if b >= 4 {
        5
    } else if b >= 2 {
        6
    } else if b >= 1 {
        7
    } else {
        8
    }
}

/// Leading zero bits of a byte string, first byte first, most significant
/// bit first.
pub open spec fn leading_zero_bits(h: Seq<u8>) -> nat
    decreases h.len(),
{
    if h.len() == 0 {
        0
    } else if h[0] == 0 {
        8 + leading_zero_bits(h.drop_first())
    } else {
        byte_leading_zeros(h[0])
    }
}

/// The difficulty of an access solution: the leading zero bits of the
/// BLAKE3 digest of its bytes (bump, seeds, nonces).
pub open spec fn poa_difficulty_of(bump: u8, seeds: Seq<u8>, nonces: Seq<u8>) -> nat {
    leading_zero_bits(blake3_of(seq![bump] + seeds + nonces))
}

/// The segment an access solution rebuilds for a miner: byte `i` is the
/// first byte of the BLAKE3 digest of the key, the bump, the seed of the
/// byte's group of eight and the byte's nonce.
pub open spec fn poa_unpack_of(bump: u8, seeds: Seq<u8>, nonces: Seq<u8>, pubkey: Seq<u8>) -> Seq<u8> {
    Seq::new(128, |i: int| blake3_of(pubkey + seq![bump, seeds[i / 8], nonces[i]])[0])
}

/// Relies on `crankx::Solution::difficulty`: the leading zero bits of the
/// hash of the digest and nonce, a function of them alone.
#[verifier::external_body]
fn pow_difficulty(pow: &PoW) -> (r: u32)
    ensures
        r == pow_difficulty_of(pow.digest@, pow.nonce@),
{
    crankx::Solution::new(pow.digest, pow.nonce).difficulty()
}

/// Relies on `crankx::Solution::is_valid`: whether the EquiX digest solves the
/// puzzle seeded by challenge, segment and nonce, a function of them alone.
#[verifier::external_body]
fn pow_is_valid(pow: &PoW, challenge: &[u8; 32], data: &[u8; 128]) -> (r: bool)
    ensures
        r == pow_accepts(pow.digest@, pow.nonce@, challenge@, data@),
{
    crankx::Solution::new(pow.digest, pow.nonce).is_valid(challenge, data).is_ok()
}

/// Relies on `packx::Solution::difficulty`: the leading zero bits of the
/// BLAKE3 hash of the serialized solution, whose bytes are the bump, the
/// seeds and the nonces in that order.
#[verifier::external_body]
fn poa_difficulty(poa: &PoA) -> (r: u32)
    ensures
        r == poa_difficulty_of(poa.bump, poa.seed@, poa.nonce@),
{
    packx::Solution::new(poa.bump, poa.seed, poa.nonce).difficulty()
}

/// Relies on `packx::Solution::unpack`: byte `i` is the first byte of the
/// BLAKE3 hash of key, bump, the seed of group `i / 8` and nonce `i`.
#[verifier::external_body]
fn poa_unpack(poa: &PoA, pubkey: &Pubkey) -> (r: [u8; 128])
    ensures
        r@ == poa_unpack_of(poa.bump, poa.seed@, poa.nonce@, pubkey@),
{
    packx::Solution::new(poa.bump, poa.seed, poa.nonce).unpack(pubkey)
}

/// The all-zero segment.
pub open spec fn empty_segment() -> Seq<u8> {
    Seq::new(128, |i: int| 0u8)
}

/// The siblings of a path, as digests.
pub open spec fn path_view(path: ProofPath) -> Seq<Seq<u8>> {
    Seq::new(SEGMENT_PROOF_LEN as nat, |i: int| path.0@[i]@)
}

impl ProofPath {
    /// The siblings as digests.
    pub fn to_hashes(&self) -> (r: Vec<hash::Hash>)
        ensures
            hashes_view(r@) == path_view(*self),
    {
        let mut out: Vec<hash::Hash> = Vec::new();
        let mut i: usize = 0;
        while i < SEGMENT_PROOF_LEN
            invariant
                i <= SEGMENT_PROOF_LEN,
                out@.len() == i,
                forall|j: int| 0 <= j < i ==> #[trigger] out@[j]@ == self.0@[j]@,
            decreases SEGMENT_PROOF_LEN - i,
        {
            out.push(hash::Hash::new_from_array(self.0[i]));
            i = i + 1;
        }
        assert(hashes_view(out@) =~= path_view(*self));
        out
    }
}

/// The verdict on a submission, from what the outside checks found:
/// a solution below its difficulty is too easy; on a funded tape the access
/// path must lead to the tape's root; and the work solution must verify.
pub open spec fn judge(
    mining_difficulty: u64,
    packing_difficulty: u64,
    pow_difficulty: u64,
    poa_difficulty: u64,
    solvent: bool,
    path_valid: bool,
    work_valid: bool,
) -> Result<(), TapeError> {
    if pow_difficulty < mining_difficulty || poa_difficulty < packing_difficulty {
        Err(TapeError::SolutionTooEasy)
    } else if solvent && !path_valid {
        Err(TapeError::SolutionInvalid)
    } else if !work_valid {
        Err(TapeError::SolutionInvalid)
    } else {
        Ok(())
    }
}

/// The verdict on a submission, from what the outside checks found.
pub fn check_solution(
    mining_difficulty: u64,
    packing_difficulty: u64,
    pow_difficulty: u64,
    poa_difficulty: u64,
    solvent: bool,
    path_valid: bool,
    work_valid: bool,
) -> (r: Result<(), TapeError>)
    ensures
        r == judge(mining_difficulty, packing_difficulty, pow_difficulty, poa_difficulty, solvent, path_valid, work_valid),
{
    if pow_difficulty < mining_difficulty {
        return Err(TapeError::SolutionTooEasy);
    }
    if poa_difficulty < packing_difficulty {
        return Err(TapeError::SolutionTooEasy);
    }
    if solvent && !path_valid {
        return Err(TapeError::SolutionInvalid);
    }
    if !work_valid {
        return Err(TapeError::SolutionInvalid);
    }
    Ok(())
}

/// The segment a submission is checked against: the one the access solution
/// rebuilds where the tape is funded, the empty segment otherwise.
pub open spec fn work_segment(tape: Tape, miner_address: Seq<u8>, poa: PoA) -> Seq<u8> {
    if tape.balance >= rent_per_block_of(tape.total_segments) {
        poa_unpack_of(poa.bump, poa.seed@, poa.nonce@, miner_address)
    } else {
        empty_segment()
    }
}

/// The verdict on a submission against `epoch`, the recalled `tape` and the
/// miner's challenge.
pub open spec fn solution_outcome(
    epoch: Epoch,
    tape: Tape,
    miner_address: Seq<u8>,
    challenge: Seq<u8>,
    pow: PoW,
    poa: PoA,
) -> Result<(), TapeError> {
    let solvent = tape.balance >= rent_per_block_of(tape.total_segments);
    let segment = poa_unpack_of(poa.bump, poa.seed@, poa.nonce@, miner_address);
    let leaf = segment_leaf(recall_segment_of(challenge, tape.total_segments), segment);
    judge(
        epoch.mining_difficulty,
        epoch.packing_difficulty,
        pow_difficulty_of(pow.digest@, pow.nonce@) as u64,
        poa_difficulty_of(poa.bump, poa.seed@, poa.nonce@) as u64,
        solvent,
        path_root(leaf, path_view(poa.path)) == tape.merkle_root@,
        pow_accepts(pow.digest@, pow.nonce@, challenge, work_segment(tape, miner_address, poa)),
    )
}

/// Checks a submission's work and access solutions against the epoch's
/// difficulties, the recalled tape's root and the miner's challenge.
pub fn verify_solution(
    epoch: &Epoch,
    tape: &Tape,
    miner_address: &Pubkey,
    miner_challenge: &[u8; 32],
    pow: &PoW,
    poa: &PoA,
) -> (r: Result<(), TapeError>)
    ensures
        r == solution_outcome(*epoch, *tape, miner_address@, miner_challenge@, *pow, *poa),
{
    let pow_d = pow_difficulty(pow) as u64;
    let poa_d = poa_difficulty(poa) as u64;
    let solvent = tape.has_minimum_rent();
    let recall_segment = poa_unpack(poa, miner_address);
    let segment_number = compute_recall_segment(miner_challenge, tape.total_segments);
    let leaf = compute_leaf(segment_number, recall_segment.as_slice());
    let merkle_proof = poa.path.to_hashes();
    let path_valid = verify(hash::Hash::new_from_array(tape.merkle_root), merkle_proof.as_slice(), leaf);
    let work_valid = if solvent {
        pow_is_valid(pow, miner_challenge, &recall_segment)
    } else {
        let empty: [u8; 128] = [0u8; 128];
        assert(empty@ =~= empty_segment());
        pow_is_valid(pow, miner_challenge, &empty)
    };
    check_solution(epoch.mining_difficulty, epoch.packing_difficulty, pow_d, poa_d, solvent, path_valid, work_valid)
}

} // verus!
