//! Spools: a miner's commitment over the tapes it has packed.
use vstd::prelude::*;
use vstd::arithmetic::power2::pow2;
use crate::consts::{MAX_TAPES_PER_SPOOL, TAPE_PROOF_LEN};
use crate::hash;
use crate::hash::{blake3_of, concat_parts, parts_of, Leaf};
use crate::state::{tape_state_code, Miner, Pubkey, Spool, Tape, TapeError, TapeState, TapeTree};
use crate::tape::segment_leaf;
use crate::tree::{path_root, proof_view, verify_no_std, MerkleTree};

verus! {

/// An empty spool of `authority`, whose tree is seeded by `seed`.
pub fn create_spool(number: u64, authority: Pubkey, seed: [u8; 32], current_time: i64) -> (r: Spool)
    ensures
        r.number == number,
        r.authority == authority,
        r.seed == seed,
        r.state.is_empty_from(blake3_of(seed@)),
        r.contains@ == hash::zero_digest(),
        r.total_tapes == 0,
        r.last_proof_block == 0,
        r.last_proof_at == current_time,
{
    let parts: [&[u8]; 1] = [seed.as_slice()];
    let ghost ps = parts_of(parts@);
    assert(ps.len() == 1);
    assert(ps[0] == seed@);
    assert(ps.drop_last() =~= Seq::<Seq<u8>>::empty());
    assert(concat_parts(ps.drop_last()) =~= Seq::<u8>::empty());
    assert(concat_parts(ps) =~= seed@);
    let state: TapeTree = MerkleTree::<10>::new(parts.as_slice());
    Spool {
        number,
        authority,
        state,
        seed,
        contains: hash::Hash::zeroed().to_bytes(),
        total_tapes: 0,
        last_proof_block: 0,
        last_proof_at: current_time,
    }
}

/// Packs a finalized tape into the spool: the leaf over the tape's number
/// and `value` is appended to the spool's tree.
pub fn process_spool_pack(spool: &mut Spool, tape: &Tape, value: &[u8; 32]) -> (r: Result<(), TapeError>)
    requires
        old(spool).state.wf(),
    ensures
        final(spool).state.wf(),
        tape.state != tape_state_code(TapeState::Finalized) || tape.number == 0 ==> r == Err::<(), TapeError>(
            TapeError::UnexpectedState,
        ),
        tape.state == tape_state_code(TapeState::Finalized) && tape.number != 0 && old(spool).total_tapes
            >= MAX_TAPES_PER_SPOOL ==> r == Err::<(), TapeError>(TapeError::SpoolTooManyTapes),
        tape.state == tape_state_code(TapeState::Finalized) && tape.number != 0 && old(spool).total_tapes
            < MAX_TAPES_PER_SPOOL ==> {
            &&& (r is Ok <==> old(spool).state.next_index < pow2(10))
            &&& r is Err ==> r == Err::<(), TapeError>(TapeError::SpoolPackFailed)
        },
        r is Err ==> *final(spool) == *old(spool),
        r is Ok ==> {
            &&& final(spool).state.appended(&old(spool).state, segment_leaf(tape.number, value@))
            &&& final(spool).total_tapes == old(spool).total_tapes.saturating_add(1)
            &&& final(spool).number == old(spool).number
            &&& final(spool).authority == old(spool).authority
            &&& final(spool).seed == old(spool).seed
            &&& final(spool).contains == old(spool).contains
            &&& final(spool).last_proof_block == old(spool).last_proof_block
            &&& final(spool).last_proof_at == old(spool).last_proof_at
        },
{
    if tape.state != TapeState::Finalized.to_u64() {
        return Err(TapeError::UnexpectedState);
    }
    if tape.number == 0 {
        return Err(TapeError::UnexpectedState);
    }
    if spool.total_tapes >= MAX_TAPES_PER_SPOOL {
        return Err(TapeError::SpoolTooManyTapes);
    }
    let leaf = crate::tape::compute_leaf(tape.number, value.as_slice());
    match spool.state.try_add_leaf(leaf) {
        Ok(()) => {},
        Err(_) => {
            return Err(TapeError::SpoolPackFailed);
        },
    }
    spool.total_tapes = spool.total_tapes.saturating_add(1);
    Ok(())
}

/// Records `value` as the miner's commitment, where `proof` shows that the
/// spool's tree holds `value` as a leaf.
pub fn process_spool_commit(miner: &mut Miner, spool: &Spool, value: [u8; 32], proof: &[hash::Hash]) -> (r: Result<(), TapeError>)
    ensures
        proof@.len() != TAPE_PROOF_LEN ==> r == Err::<(), TapeError>(TapeError::InvalidInstructionData),
        proof@.len() == TAPE_PROOF_LEN && path_root(value@, proof_view(proof)) != spool.state.root@ ==> r
            == Err::<(), TapeError>(TapeError::SpoolCommitFailed),
        proof@.len() == TAPE_PROOF_LEN && path_root(value@, proof_view(proof)) == spool.state.root@ ==> r
            is Ok,
        r is Err ==> *final(miner) == *old(miner),
        r is Ok ==> *final(miner) == (Miner { commitment: value, ..*old(miner) }),
{
    if proof.len() != TAPE_PROOF_LEN {
        return Err(TapeError::InvalidInstructionData);
    }
    let leaf = Leaf::from_array(value);
    if !verify_no_std(spool.state.root, proof, leaf) {
        return Err(TapeError::SpoolCommitFailed);
    }
    miner.commitment = value;
    Ok(())
}

/// Publishes `value` as the spool's current root, where `proof` shows that
/// the spool's tree holds the leaf over the tape number `index` and `value`.
pub fn process_spool_unpack(spool: &mut Spool, index: u64, value: [u8; 32], proof: &[hash::Hash]) -> (r: Result<(), TapeError>)
    ensures
        proof@.len() != TAPE_PROOF_LEN ==> r == Err::<(), TapeError>(TapeError::InvalidInstructionData),
        proof@.len() == TAPE_PROOF_LEN && path_root(segment_leaf(index, value@), proof_view(proof))
            != old(spool).state.root@ ==> r == Err::<(), TapeError>(TapeError::SpoolUnpackFailed),
        proof@.len() == TAPE_PROOF_LEN && path_root(segment_leaf(index, value@), proof_view(proof))
            == old(spool).state.root@ ==> r is Ok,
        r is Err ==> *final(spool) == *old(spool),
        r is Ok ==> *final(spool) == (Spool { contains: value, ..*old(spool) }),
{
    if proof.len() != TAPE_PROOF_LEN {
        return Err(TapeError::InvalidInstructionData);
    }
    let leaf = crate::tape::compute_leaf(index, value.as_slice());
    if !spool.state.contains_leaf_no_std(proof, leaf) {
        return Err(TapeError::SpoolUnpackFailed);
    }
    spool.contains = value;
    Ok(())
}

} // verus!
