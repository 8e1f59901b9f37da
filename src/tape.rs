//! The tape lifecycle: writing and updating segments, rent and finalization.
use vstd::prelude::*;
use vstd::bytes::spec_u64_to_le_bytes;
use vstd::arithmetic::power2::pow2;
use crate::consts::{BLOCKS_PER_YEAR, HEADER_SIZE, MAX_SEGMENTS_PER_TAPE, NAME_LEN, SEGMENT_PROOF_LEN, SEGMENT_SIZE};
use crate::hash;
use crate::hash::{blake3_of, concat_parts, leaf_hash, parts_of, Leaf};
use crate::state::{
    rent_per_block_of, sat_mul, tape_state_code, Archive, Pubkey, Tape, TapeError,
    TapeState, Writer,
};
use crate::tree::{add_all, proof_view, MerkleTree};

verus! {

/// The leaf of segment `segment_number` with the given bytes.
pub open spec fn segment_leaf(segment_number: u64, segment: Seq<u8>) -> Seq<u8> {
    leaf_hash(seq![spec_u64_to_le_bytes(segment_number), segment])
}

/// The leaf of a segment: the leaf over its number, as eight little-endian
/// bytes, and its bytes.
pub fn compute_leaf(segment_number: u64, segment: &[u8]) -> (r: Leaf)
    ensures
        r@ == segment_leaf(segment_number, segment@),
{
    let number_bytes = vstd::bytes::u64_to_le_bytes(segment_number);
    let parts: [&[u8]; 2] = [number_bytes.as_slice(), segment];
    let r = Leaf::new(parts.as_slice());
    assert(crate::hash::parts_of(parts@) =~= seq![spec_u64_to_le_bytes(segment_number), segment@]);
    r
}

/// Segment `i` of `data`: its bytes from `i * SEGMENT_SIZE`, padded with zeros.
pub open spec fn segment_of(data: Seq<u8>, i: int) -> Seq<u8> {
    Seq::new(
        SEGMENT_SIZE as nat,
        |k: int|
            if i * SEGMENT_SIZE + k < data.len() {
                data[i * SEGMENT_SIZE + k]
            } else {
                0u8
            },
    )
}

/// The number of segments `len` bytes take.
pub open spec fn segment_count(len: nat) -> nat {
    if len % (SEGMENT_SIZE as nat) == 0 {
        len / (SEGMENT_SIZE as nat)
    } else {
        len / (SEGMENT_SIZE as nat) + 1
    }
}

/// The leaves that writing `data` appends, numbered from `first`.
pub open spec fn write_leaves(first: u64, data: Seq<u8>) -> Seq<Seq<u8>> {
    Seq::new(segment_count(data.len()), |i: int| segment_leaf((first + i) as u64, segment_of(data, i)))
}

/// The tape state may take segments.
pub open spec fn writable(tape: Tape) -> bool {
    tape.state == tape_state_code(TapeState::Created) || tape.state == tape_state_code(TapeState::Writing)
}

/// Bytes `offset ..` of `data`, padded with zeros to a segment.
pub fn padded_segment(data: &[u8], offset: usize) -> (r: [u8; SEGMENT_SIZE])
    requires
        offset <= data@.len(),
    ensures
        forall|k: int|
            0 <= k < SEGMENT_SIZE ==> #[trigger] r@[k] == if offset + k < data@.len() {
                data@[offset + k]
            } else {
                0u8
            },
{
    let mut out: [u8; SEGMENT_SIZE] = [0u8; SEGMENT_SIZE];
    let mut k: usize = 0;
    while k < SEGMENT_SIZE
        invariant
            k <= SEGMENT_SIZE,
            offset <= data@.len(),
            forall|j: int|
                0 <= j < SEGMENT_SIZE ==> #[trigger] out@[j] == if j < k && offset + j < data@.len() {
                    data@[offset + j]
                } else {
                    0u8
                },
        decreases SEGMENT_SIZE - k,
    {
        if k < data.len() - offset {
            out[k] = data[offset + k];
        }
        k = k + 1;
    }
    out
}

/// A new tape record in the `Created` state.
pub fn create_tape(authority: Pubkey, name: [u8; NAME_LEN], current_slot: u64) -> (r: Tape)
    ensures
        r.number == 0,
        r.state == tape_state_code(TapeState::Created),
        r.authority == authority,
        r.name == name,
        r.total_segments == 0,
        r.balance == 0,
        r.first_slot == current_slot,
        r.tail_slot == current_slot,
        r.last_rent_block == 0,
{
    Tape {
        number: 0,
        state: TapeState::Created.to_u64(),
        authority,
        name,
        merkle_seed: [0u8; 32],
        merkle_root: [0u8; 32],
        header: [0u8; HEADER_SIZE],
        first_slot: current_slot,
        tail_slot: current_slot,
        balance: 0,
        last_rent_block: 0,
        total_segments: 0,
    }
}

impl Writer {
    /// The writer of the tape at `tape`: an empty segment tree seeded by the
    /// tape's address.
    pub fn new(tape: Pubkey) -> (r: Writer)
        ensures
            r.tape == tape,
            r.state.is_empty_from(blake3_of(tape@)),
    {
        let parts: [&[u8]; 1] = [tape.as_slice()];
        let ghost ps = parts_of(parts@);
        assert(ps.len() == 1);
        assert(ps[0] == tape@);
        assert(ps.drop_last() =~= Seq::<Seq<u8>>::empty());
        assert(concat_parts(ps.drop_last()) =~= Seq::<u8>::empty());
        assert(concat_parts(ps) =~= tape@);
        Writer { tape, state: MerkleTree::<18>::new(parts.as_slice()) }
    }
}

/// Writes `data` to the tape as zero-padded segments, each appended to the
/// writer's tree as the leaf over its number and bytes.
pub fn process_tape_write(tape: &mut Tape, writer: &mut Writer, data: &[u8], current_slot: u64) -> (r: Result<(), TapeError>)
    requires
        old(writer).state.wf(),
    ensures
        final(writer).state.wf(),
        !writable(*old(tape)) ==> r == Err::<(), TapeError>(TapeError::UnexpectedState),
        writable(*old(tape)) && old(tape).total_segments + segment_count(data@.len()) > MAX_SEGMENTS_PER_TAPE
            ==> r == Err::<(), TapeError>(TapeError::TapeTooLong),
        writable(*old(tape)) && old(tape).total_segments + segment_count(data@.len()) <= MAX_SEGMENTS_PER_TAPE
            && old(writer).state.next_index + segment_count(data@.len()) > pow2(18)
            ==> r == Err::<(), TapeError>(TapeError::WriteFailed),
        writable(*old(tape)) && old(tape).total_segments + segment_count(data@.len()) <= MAX_SEGMENTS_PER_TAPE
            && old(writer).state.next_index + segment_count(data@.len()) <= pow2(18) ==> r is Ok,
        r is Err ==> *final(tape) == *old(tape) && *final(writer) == *old(writer),
        r is Ok ==> {
            &&& writable(*old(tape))
            &&& old(tape).total_segments + segment_count(data@.len()) <= MAX_SEGMENTS_PER_TAPE
            &&& old(writer).state.next_index + segment_count(data@.len()) <= pow2(18)
            &&& final(writer).state.model() == add_all(
                old(writer).state.model(),
                old(writer).state.zeros(),
                write_leaves(old(tape).total_segments, data@),
            )
            &&& final(writer).state.zero_values == old(writer).state.zero_values
            &&& final(writer).tape == old(writer).tape
            &&& *final(tape) == (Tape {
                total_segments: (old(tape).total_segments + segment_count(data@.len())) as u64,
                merkle_root: final(tape).merkle_root,
                state: tape_state_code(TapeState::Writing),
                tail_slot: current_slot,
                ..*old(tape)
            })
            &&& final(tape).merkle_root@ == final(writer).state.root@
        },
{
    if tape.state != TapeState::Created.to_u64() && tape.state != TapeState::Writing.to_u64() {
        return Err(TapeError::UnexpectedState);
    }
    let len = data.len();
    let n_segments: usize = if len % SEGMENT_SIZE == 0 { len / SEGMENT_SIZE } else { len / SEGMENT_SIZE + 1 };
    let count = n_segments as u64;
    if tape.total_segments > MAX_SEGMENTS_PER_TAPE || count > MAX_SEGMENTS_PER_TAPE - tape.total_segments {
        return Err(TapeError::TapeTooLong);
    }
    let capacity = writer.state.get_capacity();
    if count > capacity - writer.state.next_index {
        return Err(TapeError::WriteFailed);
    }
    let ghost m0 = writer.state.model();
    let ghost zeros0 = writer.state.zeros();
    let ghost leaves = write_leaves(tape.total_segments, data@);
    assert(leaves.take(0) =~= Seq::<Seq<u8>>::empty());
    let mut i: usize = 0;
    while i < n_segments
        invariant
            i <= n_segments,
            n_segments == segment_count(data@.len()),
            len == data@.len(),
            count == n_segments,
            tape.total_segments + count <= MAX_SEGMENTS_PER_TAPE,
            writer.state.wf(),
            writer.state.next_index + (count - i) <= pow2(18),
            writer.state.zeros() == zeros0,
            writer.state.zero_values == old(writer).state.zero_values,
            writer.tape == old(writer).tape,
            *tape == *old(tape),
            leaves == write_leaves(tape.total_segments, data@),
            writer.state.model() == add_all(m0, zeros0, leaves.take(i as int)),
        decreases n_segments - i,
    {
        let offset = i * SEGMENT_SIZE;
        let segment = padded_segment(data, offset);
        assert(segment@ =~= segment_of(data@, i as int));
        let leaf = compute_leaf(tape.total_segments + i as u64, segment.as_slice());
        let added = writer.state.try_add_leaf(leaf);
        assert(leaves.take(i + 1).drop_last() =~= leaves.take(i as int));
        i = i + 1;
    }
    assert(leaves.take(n_segments as int) =~= leaves);
    tape.total_segments = tape.total_segments + count;
    tape.merkle_root = writer.state.get_root().to_bytes();
    tape.state = TapeState::Writing.to_u64();
    tape.tail_slot = current_slot;
    Ok(())
}

/// Replaces segment `segment_number`'s bytes `old_data` by `new_data` in
/// the writer's tree, where `proof` shows the old leaf; the segment count
/// stays.
pub fn process_tape_update(
    tape: &mut Tape,
    writer: &mut Writer,
    segment_number: u64,
    old_data: &[u8],
    new_data: &[u8],
    proof: &[hash::Hash],
    current_slot: u64,
) -> (r: Result<(), TapeError>)
    requires
        old(writer).state.wf(),
    ensures
        final(writer).state.wf(),
        !writable(*old(tape)) ==> r == Err::<(), TapeError>(TapeError::UnexpectedState),
        writable(*old(tape)) && (old_data@.len() != SEGMENT_SIZE || new_data@.len() != SEGMENT_SIZE
            || proof@.len() != SEGMENT_PROOF_LEN) ==> r == Err::<(), TapeError>(
            TapeError::InvalidInstructionData,
        ),
        r is Err ==> *final(tape) == *old(tape) && *final(writer) == *old(writer),
        writable(*old(tape)) && old_data@.len() == SEGMENT_SIZE && new_data@.len() == SEGMENT_SIZE
            && proof@.len() == SEGMENT_PROOF_LEN ==> {
            let old_leaf = segment_leaf(segment_number, old_data@);
            let new_leaf = segment_leaf(segment_number, new_data@);
            &&& (r is Ok <==> crate::tree::path_root(old_leaf, proof_view(proof)) == old(writer).state.root@)
            &&& r is Err ==> r == Err::<(), TapeError>(TapeError::WriteFailed)
            &&& r is Ok ==> {
                &&& final(writer).state.replace_outcome(&old(writer).state, Ok(()), proof_view(proof), old_leaf, new_leaf)
                &&& final(writer).tape == old(writer).tape
                &&& final(tape).merkle_root@ == final(writer).state.root@
                &&& *final(tape) == (Tape { merkle_root: final(tape).merkle_root, tail_slot: current_slot, ..*old(tape) })
            }
        },
{
    if tape.state != TapeState::Created.to_u64() && tape.state != TapeState::Writing.to_u64() {
        return Err(TapeError::UnexpectedState);
    }
    if old_data.len() != SEGMENT_SIZE || new_data.len() != SEGMENT_SIZE || proof.len() != SEGMENT_PROOF_LEN {
        return Err(TapeError::InvalidInstructionData);
    }
    let old_leaf = compute_leaf(segment_number, old_data);
    let new_leaf = compute_leaf(segment_number, new_data);
    match writer.state.try_replace_leaf_no_std(proof, old_leaf, new_leaf) {
        Ok(()) => {},
        Err(_) => {
            return Err(TapeError::WriteFailed);
        },
    }
    tape.merkle_root = writer.state.get_root().to_bytes();
    tape.tail_slot = current_slot;
    Ok(())
}

/// Finalizes a tape whose balance covers a year of rent: it takes the next
/// tape number and the archive counts its segments.
pub fn process_tape_finalize(tape: &mut Tape, archive: &mut Archive) -> (r: Result<(), TapeError>)
    ensures
        old(tape).state != tape_state_code(TapeState::Writing) ==> r == Err::<(), TapeError>(
            TapeError::UnexpectedState,
        ),
        old(tape).state == tape_state_code(TapeState::Writing) && old(tape).balance < sat_mul(
            rent_per_block_of(old(tape).total_segments),
            BLOCKS_PER_YEAR,
        ) ==> r == Err::<(), TapeError>(TapeError::InsufficientRent),
        old(tape).state == tape_state_code(TapeState::Writing) && old(tape).balance >= sat_mul(
            rent_per_block_of(old(tape).total_segments),
            BLOCKS_PER_YEAR,
        ) ==> r is Ok,
        r is Err ==> *final(tape) == *old(tape) && *final(archive) == *old(archive),
        r is Ok ==> {
            &&& old(tape).state == tape_state_code(TapeState::Writing)
            &&& old(tape).balance >= sat_mul(rent_per_block_of(old(tape).total_segments), BLOCKS_PER_YEAR)
            &&& *final(archive) == (Archive {
                tapes_stored: old(archive).tapes_stored.saturating_add(1),
                segments_stored: old(archive).segments_stored.saturating_add(old(tape).total_segments),
            })
            &&& *final(tape) == (Tape {
                number: final(archive).tapes_stored,
                state: tape_state_code(TapeState::Finalized),
                ..*old(tape)
            })
        },
{
    if tape.state != TapeState::Writing.to_u64() {
        return Err(TapeError::UnexpectedState);
    }
    if !tape.can_finalize() {
        return Err(TapeError::InsufficientRent);
    }
    archive.tapes_stored = archive.tapes_stored.saturating_add(1);
    archive.segments_stored = archive.segments_stored.saturating_add(tape.total_segments);
    tape.number = archive.tapes_stored;
    tape.state = TapeState::Finalized.to_u64();
    Ok(())
}

/// Adds `amount` to the tape's rent balance.
pub fn process_tape_subsidize_rent(tape: &mut Tape, amount: u64)
    ensures
        *final(tape) == (Tape { balance: old(tape).balance.saturating_add(amount), ..*old(tape) }),
{
    tape.balance = tape.balance.saturating_add(amount);
}

/// Sets the header of a tape that is being written.
pub fn process_tape_set_header(tape: &mut Tape, header: [u8; HEADER_SIZE]) -> (r: Result<(), TapeError>)
    ensures
        old(tape).state != tape_state_code(TapeState::Writing) ==> r == Err::<(), TapeError>(
            TapeError::UnexpectedState,
        ) && *final(tape) == *old(tape),
        old(tape).state == tape_state_code(TapeState::Writing) ==> r is Ok && *final(tape) == (Tape {
            header,
            ..*old(tape)
        }),
{
    if tape.state != TapeState::Writing.to_u64() {
        return Err(TapeError::UnexpectedState);
    }
    tape.header = header;
    Ok(())
}

} // verus!
