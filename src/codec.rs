//! Fixed byte layouts of the global records: fields in order, numbers as
//! 8 little-endian bytes (signed ones in two's complement).
use vstd::prelude::*;
use vstd::bytes::{spec_u64_from_le_bytes, spec_u64_to_le_bytes};
use crate::hash::append_bytes;
use crate::state::{read_array, Archive, Block, Epoch, TapeError};

verus! {

/// The 8 bytes of a number.
pub open spec fn le(x: u64) -> Seq<u8> {
    spec_u64_to_le_bytes(x)
}

/// The number in bytes `at .. at + 8` of `data`.
pub open spec fn num_at(data: Seq<u8>, at: int) -> u64 {
    spec_u64_from_le_bytes(data.subrange(at, at + 8))
}

/// The bytes of the archive record.
pub open spec fn archive_bytes(a: Archive) -> Seq<u8> {
    le(a.tapes_stored) + le(a.segments_stored)
}

/// The bytes of the epoch record.
pub open spec fn epoch_bytes(e: Epoch) -> Seq<u8> {
    le(e.number) + le(e.progress) + le(e.mining_difficulty) + le(e.packing_difficulty) + le(
        e.target_participation,
    ) + le(e.reward_rate) + le(e.duplicates) + le(e.last_epoch_at as u64)
}

/// The bytes of the block record.
pub open spec fn block_bytes(b: Block) -> Seq<u8> {
    le(b.number) + le(b.progress) + b.challenge@ + le(b.challenge_set) + le(b.last_proof_at as u64) + le(
        b.last_block_at as u64,
    )
}

fn push_num(buf: &mut Vec<u8>, x: u64)
    ensures
        final(buf)@ == old(buf)@ + le(x),
{
    let bytes = vstd::bytes::u64_to_le_bytes(x);
    append_bytes(buf, bytes.as_slice());
}

fn read_num(data: &[u8], at: usize) -> (r: u64)
    requires
        at + 8 <= data@.len(),
    ensures
        r == num_at(data@, at as int),
{
    let n = data.len();
    assert(at + 8 <= n);
    vstd::bytes::u64_from_le_bytes(vstd::slice::slice_subrange(data, at, at + 8))
}

proof fn lemma_le(x: u64)
    ensures
        le(x).len() == 8,
        spec_u64_from_le_bytes(le(x)) == x,
{
    vstd::bytes::lemma_auto_spec_u64_to_from_le_bytes();
}

impl Archive {
    /// The record's bytes.
    pub fn to_bytes(&self) -> (r: Vec<u8>)
        ensures
            r@ == archive_bytes(*self),
    {
        let mut buf: Vec<u8> = Vec::new();
        push_num(&mut buf, self.tapes_stored);
        push_num(&mut buf, self.segments_stored);
        buf
    }

    /// Reads the record from exactly 16 bytes.
    pub fn try_from_bytes(data: &[u8]) -> (r: Result<Archive, TapeError>)
        ensures
            data@.len() != 16 ==> r == Err::<Archive, TapeError>(TapeError::InvalidAccountData),
            data@.len() == 16 ==> r == Ok::<Archive, TapeError>(
                Archive { tapes_stored: num_at(data@, 0), segments_stored: num_at(data@, 8) },
            ),
    {
        if data.len() != 16 {
            return Err(TapeError::InvalidAccountData);
        }
        Ok(Archive { tapes_stored: read_num(data, 0), segments_stored: read_num(data, 8) })
    }
}

impl Epoch {
    /// The record's bytes.
    pub fn to_bytes(&self) -> (r: Vec<u8>)
        ensures
            r@ == epoch_bytes(*self),
    {
        let mut buf: Vec<u8> = Vec::new();
        push_num(&mut buf, self.number);
        push_num(&mut buf, self.progress);
        push_num(&mut buf, self.mining_difficulty);
        push_num(&mut buf, self.packing_difficulty);
        push_num(&mut buf, self.target_participation);
        push_num(&mut buf, self.reward_rate);
        push_num(&mut buf, self.duplicates);
        push_num(&mut buf, self.last_epoch_at as u64);
        buf
    }

    /// Reads the record from exactly 64 bytes.
    pub fn try_from_bytes(data: &[u8]) -> (r: Result<Epoch, TapeError>)
        ensures
            data@.len() != 64 ==> r == Err::<Epoch, TapeError>(TapeError::InvalidAccountData),
            data@.len() == 64 ==> r == Ok::<Epoch, TapeError>(
                Epoch {
                    number: num_at(data@, 0),
                    progress: num_at(data@, 8),
                    mining_difficulty: num_at(data@, 16),
                    packing_difficulty: num_at(data@, 24),
                    target_participation: num_at(data@, 32),
                    reward_rate: num_at(data@, 40),
                    duplicates: num_at(data@, 48),
                    last_epoch_at: num_at(data@, 56) as i64,
                },
            ),
    {
        if data.len() != 64 {
            return Err(TapeError::InvalidAccountData);
        }
        Ok(Epoch {
            number: read_num(data, 0),
            progress: read_num(data, 8),
            mining_difficulty: read_num(data, 16),
            packing_difficulty: read_num(data, 24),
            target_participation: read_num(data, 32),
            reward_rate: read_num(data, 40),
            duplicates: read_num(data, 48),
            last_epoch_at: read_num(data, 56) as i64,
        })
    }
}

impl Block {
    /// The record's bytes.
    pub fn to_bytes(&self) -> (r: Vec<u8>)
        ensures
            r@ == block_bytes(*self),
    {
        let mut buf: Vec<u8> = Vec::new();
        push_num(&mut buf, self.number);
        push_num(&mut buf, self.progress);
        append_bytes(&mut buf, self.challenge.as_slice());
        push_num(&mut buf, self.challenge_set);
        push_num(&mut buf, self.last_proof_at as u64);
        push_num(&mut buf, self.last_block_at as u64);
        buf
    }

    /// Reads the record from exactly 72 bytes.
    pub fn try_from_bytes(data: &[u8]) -> (r: Result<Block, TapeError>)
        ensures
            data@.len() != 72 ==> r == Err::<Block, TapeError>(TapeError::InvalidAccountData),
            data@.len() == 72 ==> r is Ok && ({
                let b = r->Ok_0;
                &&& b.number == num_at(data@, 0)
                &&& b.progress == num_at(data@, 8)
                &&& b.challenge@ == data@.subrange(16, 48)
                &&& b.challenge_set == num_at(data@, 48)
                &&& b.last_proof_at == num_at(data@, 56) as i64
                &&& b.last_block_at == num_at(data@, 64) as i64
            }),
    {
        if data.len() != 72 {
            return Err(TapeError::InvalidAccountData);
        }
        Ok(Block {
            number: read_num(data, 0),
            progress: read_num(data, 8),
            challenge: read_array::<32>(data, 16),
            challenge_set: read_num(data, 48),
            last_proof_at: read_num(data, 56) as i64,
            last_block_at: read_num(data, 64) as i64,
        })
    }
}

/// Reading an epoch record's bytes gives the record back.
pub proof fn lemma_epoch_round_trip(e: Epoch)
    ensures
        epoch_bytes(e).len() == 64,
        ({
            let b = epoch_bytes(e);
            Epoch {
                number: num_at(b, 0),
                progress: num_at(b, 8),
                mining_difficulty: num_at(b, 16),
                packing_difficulty: num_at(b, 24),
                target_participation: num_at(b, 32),
                reward_rate: num_at(b, 40),
                duplicates: num_at(b, 48),
                last_epoch_at: num_at(b, 56) as i64,
            } == e
        }),
{
    lemma_le(e.number);
    lemma_le(e.progress);
    lemma_le(e.mining_difficulty);
    lemma_le(e.packing_difficulty);
    lemma_le(e.target_participation);
    lemma_le(e.reward_rate);
    lemma_le(e.duplicates);
    lemma_le(e.last_epoch_at as u64);
    let b = epoch_bytes(e);
    assert(b.subrange(0, 8) =~= le(e.number));
    assert(b.subrange(8, 16) =~= le(e.progress));
    assert(b.subrange(16, 24) =~= le(e.mining_difficulty));
    assert(b.subrange(24, 32) =~= le(e.packing_difficulty));
    assert(b.subrange(32, 40) =~= le(e.target_participation));
    assert(b.subrange(40, 48) =~= le(e.reward_rate));
    assert(b.subrange(48, 56) =~= le(e.duplicates));
    assert(b.subrange(56, 64) =~= le(e.last_epoch_at as u64));
    let t = e.last_epoch_at;
    assert((t as u64) as i64 == t) by (bit_vector);
}

/// Reading an archive record's bytes gives the record back.
pub proof fn lemma_archive_round_trip(a: Archive)
    ensures
        archive_bytes(a).len() == 16,
        num_at(archive_bytes(a), 0) == a.tapes_stored,
        num_at(archive_bytes(a), 8) == a.segments_stored,
{
    lemma_le(a.tapes_stored);
    lemma_le(a.segments_stored);
    let b = archive_bytes(a);
    assert(b.subrange(0, 8) =~= le(a.tapes_stored));
    assert(b.subrange(8, 16) =~= le(a.segments_stored));
}

} // verus!
