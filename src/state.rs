//! The protocol's records and their simple rules.
use vstd::prelude::*;
use crate::consts::{BLOCKS_PER_YEAR, HEADER_SIZE, NAME_LEN, RENT_PER_SEGMENT, SEGMENT_PROOF_LEN};
use crate::consts::{MAX_PARTICIPATION_TARGET, MIN_MINING_DIFFICULTY, MIN_PARTICIPATION_TARGET};
use crate::tree::MerkleTree;

verus! {

/// A public key.
pub type Pubkey = [u8; 32];

/// The tree over a tape's segments.
pub type SegmentTree = MerkleTree<18>;

/// The tree over a spool's tapes.
pub type TapeTree = MerkleTree<10>;

/// Failures of the protocol layer.
#[derive(Clone, Copy, PartialEq, Eq, Debug, Structural)]
pub enum TapeError {
    /// The submitted tape is not the recalled one.
    UnexpectedTape,
    /// A solution does not reach the current difficulty.
    SolutionTooEasy,
    /// A solution does not verify.
    SolutionInvalid,
    /// A record is not in the state the action needs.
    UnexpectedState,
    /// A tape's balance does not cover a year of rent.
    InsufficientRent,
    /// A spool holds as many tapes as it may.
    SpoolTooManyTapes,
    /// A spool commitment does not verify.
    SpoolCommitFailed,
    /// A tape could not be packed into a spool.
    SpoolPackFailed,
    /// A spool membership claim does not verify.
    SpoolUnpackFailed,
    /// A claim exceeds the unclaimed rewards.
    ClaimTooLarge,
    /// A segment could not be written to the tape's tree.
    WriteFailed,
    /// A write would exceed the segments a tape may hold.
    TapeTooLong,
    /// A second submission in the same block, before the block stalled.
    DuplicateSubmission,
    /// Input bytes of the wrong shape.
    InvalidInstructionData,
    /// A record's bytes are too short for what is read from them.
    InvalidAccountData,
}

/// Kinds of records.
#[derive(Clone, Copy, PartialEq, Eq, Debug, Structural)]
pub enum AccountType {
    Unknown,
    Archive,
    Spool,
    Writer,
    Tape,
    Miner,
    Epoch,
    Block,
    Treasury,
}

impl AccountType {
    /// The discriminator byte of the record kind.
    pub fn to_u8(self) -> (r: u8)
        ensures
            r == account_type_code(self),
    {
        match self {
            AccountType::Unknown => 0,
            AccountType::Archive => 1,
            AccountType::Spool => 2,
            AccountType::Writer => 3,
            AccountType::Tape => 4,
            AccountType::Miner => 5,
            AccountType::Epoch => 6,
            AccountType::Block => 7,
            AccountType::Treasury => 8,
        }
    }
}

/// The discriminator byte of each record kind.
pub open spec fn account_type_code(t: AccountType) -> u8 {
    match t {
        AccountType::Unknown => 0,
        AccountType::Archive => 1,
        AccountType::Spool => 2,
        AccountType::Writer => 3,
        AccountType::Tape => 4,
        AccountType::Miner => 5,
        AccountType::Epoch => 6,
        AccountType::Block => 7,
        AccountType::Treasury => 8,
    }
}

/// Lifecycle of a tape.
#[derive(Clone, Copy, PartialEq, Eq, Debug, Structural)]
pub enum TapeState {
    Unknown,
    Created,
    Writing,
    Finalized,
}

/// The number stored for each tape state.
pub open spec fn tape_state_code(s: TapeState) -> u64 {
    match s {
        TapeState::Unknown => 0,
        TapeState::Created => 1,
        TapeState::Writing => 2,
        TapeState::Finalized => 3,
    }
}

impl TapeState {
    /// The number stored for the state.
    pub fn to_u64(self) -> (r: u64)
        ensures
            r == tape_state_code(self),
    {
        match self {
            TapeState::Unknown => 0,
            TapeState::Created => 1,
            TapeState::Writing => 2,
            TapeState::Finalized => 3,
        }
    }
}

/// `a * b`, or `u64::MAX` where the product does not fit.
pub open spec fn sat_mul(a: u64, b: u64) -> u64 {
    if a * b > u64::MAX {
        u64::MAX
    } else {
        (a * b) as u64
    }
}

/// `a * b`, or `u64::MAX` where the product does not fit.
pub fn saturating_mul(a: u64, b: u64) -> (r: u64)
    ensures
        r == sat_mul(a, b),
{
    proof {
        assert((a as int) * (b as int) <= (u64::MAX as int) * (u64::MAX as int)) by (nonlinear_arith)
            requires
                a <= u64::MAX,
                b <= u64::MAX,
                0 <= a,
                0 <= b,
        ;
    }
    let p: u128 = (a as u128) * (b as u128);
    if p > u64::MAX as u128 {
        u64::MAX
    } else {
        p as u64
    }
}

/// Global counters of the archive.
#[derive(Clone, Copy, PartialEq, Eq, Debug, Structural)]
pub struct Archive {
    pub tapes_stored: u64,
    pub segments_stored: u64,
}

impl Archive {
    /// The storage part of the per-block reward.
    pub fn block_reward(&self) -> (r: u64)
        ensures
            r == sat_mul(self.segments_stored, RENT_PER_SEGMENT),
    {
        saturating_mul(self.segments_stored, RENT_PER_SEGMENT)
    }
}

/// Mining difficulty and rewards of the current epoch.
#[derive(Clone, Copy, PartialEq, Eq, Debug, Structural)]
pub struct Epoch {
    pub number: u64,
    pub progress: u64,
    pub mining_difficulty: u64,
    pub packing_difficulty: u64,
    pub target_participation: u64,
    pub reward_rate: u64,
    pub duplicates: u64,
    pub last_epoch_at: i64,
}

impl Epoch {
    /// The difficulty is at least its floor and the participation target
    /// lies between its floor and its ceiling.
    pub open spec fn wf(&self) -> bool {
        &&& self.mining_difficulty >= MIN_MINING_DIFFICULTY
        &&& MIN_PARTICIPATION_TARGET <= self.target_participation <= MAX_PARTICIPATION_TARGET
    }
}

/// The current mining block.
#[derive(Clone, Copy, PartialEq, Debug)]
pub struct Block {
    pub number: u64,
    pub progress: u64,
    pub challenge: [u8; 32],
    pub challenge_set: u64,
    pub last_proof_at: i64,
    pub last_block_at: i64,
}

/// A tape: a named sequence of segments committed to by a Merkle root.
#[derive(Clone, Copy, PartialEq, Debug)]
pub struct Tape {
    pub number: u64,
    pub state: u64,
    pub authority: Pubkey,
    pub name: [u8; NAME_LEN],
    pub merkle_seed: [u8; 32],
    pub merkle_root: [u8; 32],
    pub header: [u8; HEADER_SIZE],
    pub first_slot: u64,
    pub tail_slot: u64,
    pub balance: u64,
    pub last_rent_block: u64,
    pub total_segments: u64,
}

/// Rent of all segments of a tape for one block.
pub open spec fn rent_per_block_of(total_segments: u64) -> u64 {
    sat_mul(total_segments, RENT_PER_SEGMENT)
}

impl Tape {
    /// The balance covers at least one block of rent.
    pub fn has_minimum_rent(&self) -> (r: bool)
        ensures
            r == (self.balance >= rent_per_block_of(self.total_segments)),
    {
        self.balance >= self.rent_per_block()
    }

    /// Rent of all segments for one block.
    pub fn rent_per_block(&self) -> (r: u64)
        ensures
            r == rent_per_block_of(self.total_segments),
    {
        saturating_mul(self.total_segments, RENT_PER_SEGMENT)
    }

    /// The balance covers a year of rent.
    pub fn can_finalize(&self) -> (r: bool)
        ensures
            r == (self.balance >= sat_mul(rent_per_block_of(self.total_segments), BLOCKS_PER_YEAR)),
    {
        self.balance >= saturating_mul(self.rent_per_block(), BLOCKS_PER_YEAR)
    }

    /// Rent owed for the blocks since `last_rent_block`.
    pub fn rent_owed(&self, current_block: u64) -> (r: u64)
        ensures
            r == sat_mul(
                rent_per_block_of(self.total_segments),
                current_block.saturating_sub(self.last_rent_block),
            ),
    {
        let blocks = current_block.saturating_sub(self.last_rent_block);
        saturating_mul(self.rent_per_block(), blocks)
    }
}

/// A miner.
#[derive(Clone, Copy, PartialEq, Debug)]
pub struct Miner {
    pub authority: Pubkey,
    pub name: [u8; NAME_LEN],
    pub unclaimed_rewards: u64,
    pub challenge: [u8; 32],
    pub commitment: [u8; 32],
    pub multiplier: u64,
    pub last_proof_block: u64,
    pub last_proof_at: i64,
    pub total_proofs: u64,
    pub total_rewards: u64,
}

/// The Merkle path of a recalled segment.
#[derive(Clone, Copy, PartialEq, Debug)]
pub struct ProofPath(pub [[u8; 32]; SEGMENT_PROOF_LEN]);

impl ProofPath {
    /// The siblings, as bytes.
    pub fn as_array(&self) -> (r: &[[u8; 32]; SEGMENT_PROOF_LEN])
        ensures
            *r == self.0,
    {
        &self.0
    }
}

/// A proof-of-work solution.
#[derive(Clone, Copy, PartialEq, Eq, Debug)]
pub struct PoW {
    pub digest: [u8; 16],
    pub nonce: [u8; 8],
}

/// A proof-of-access solution, bound to the miner, and the Merkle path of
/// the recalled segment.
#[derive(Clone, Copy, PartialEq, Debug)]
pub struct PoA {
    pub bump: u8,
    pub seed: [u8; 16],
    pub nonce: [u8; 128],
    pub path: ProofPath,
}

/// A mining submission.
#[derive(Clone, Copy, PartialEq, Debug)]
pub struct Mine {
    pub pow: PoW,
    pub poa: PoA,
}

/// Bytes `at .. at + N` of `data`.
pub fn read_array<const N: usize>(data: &[u8], at: usize) -> (r: [u8; N])
    requires
        at + N <= data@.len(),
    ensures
        r@ == data@.subrange(at as int, at + N),
{
    let n = data.len();
    let mut out: [u8; N] = vstd::array::array_fill_for_copy_types::<u8, N>(0u8);
    let mut i: usize = 0;
    while i < N
        invariant
            i <= N,
            at + N <= n,
            n == data@.len(),
            forall|j: int| 0 <= j < i ==> #[trigger] out@[j] == data@[at + j],
        decreases N - i,
    {
        out[i] = data[at + i];
        i = i + 1;
    }
    assert(out@ =~= data@.subrange(at as int, at + N));
    out
}

/// The path stored in `data` from `at` on: one 32-byte sibling after another.
pub open spec fn path_at(path: ProofPath, data: Seq<u8>, at: int) -> bool {
    forall|i: int| 0 <= i < SEGMENT_PROOF_LEN ==> #[trigger] path.0@[i]@ == data.subrange(at + 32 * i, at + 32 * i + 32)
}

impl Mine {
    /// Reads a submission from exactly 745 bytes: the work solution (digest,
    /// nonce), then the access solution (bump, seeds, nonces) and its path.
    pub fn try_from_bytes(data: &[u8]) -> (r: Result<Mine, TapeError>)
        ensures
            data@.len() != 745 ==> r == Err::<Mine, TapeError>(TapeError::InvalidInstructionData),
            data@.len() == 745 ==> r is Ok && ({
                let m = r->Ok_0;
                &&& m.pow.digest@ == data@.subrange(0, 16)
                &&& m.pow.nonce@ == data@.subrange(16, 24)
                &&& m.poa.bump == data@[24]
                &&& m.poa.seed@ == data@.subrange(25, 41)
                &&& m.poa.nonce@ == data@.subrange(41, 169)
                &&& path_at(m.poa.path, data@, 169)
            }),
    {
        if data.len() != 745 {
            return Err(TapeError::InvalidInstructionData);
        }
        let digest = read_array::<16>(data, 0);
        let nonce = read_array::<8>(data, 16);
        let bump = data[24];
        let seed = read_array::<16>(data, 25);
        let poa_nonce = read_array::<128>(data, 41);
        let mut path: [[u8; 32]; SEGMENT_PROOF_LEN] = [[0u8; 32]; SEGMENT_PROOF_LEN];
        let mut i: usize = 0;
        while i < SEGMENT_PROOF_LEN
            invariant
                i <= SEGMENT_PROOF_LEN,
                data@.len() == 745,
                forall|j: int| 0 <= j < i ==> #[trigger] path@[j]@ == data@.subrange(169 + 32 * j, 169 + 32 * j + 32),
            decreases SEGMENT_PROOF_LEN - i,
        {
            path[i] = read_array::<32>(data, 169 + 32 * i);
            i = i + 1;
        }
        Ok(Mine { pow: PoW { digest, nonce }, poa: PoA { bump, seed, nonce: poa_nonce, path: ProofPath(path) } })
    }
}

/// A tape's writer: the tree that accumulates its segments.
#[derive(Clone, Copy, PartialEq, Debug)]
pub struct Writer {
    pub tape: Pubkey,
    pub state: SegmentTree,
}

/// A miner's commitment over the tapes it has packed.
#[derive(Clone, Copy, PartialEq, Debug)]
pub struct Spool {
    pub number: u64,
    pub authority: Pubkey,
    pub state: TapeTree,
    pub seed: [u8; 32],
    pub contains: [u8; 32],
    pub total_tapes: u64,
    pub last_proof_block: u64,
    pub last_proof_at: i64,
}

/// The treasury record.
#[derive(Clone, Copy, PartialEq, Eq, Debug, Structural)]
pub struct Treasury {}

} // verus!
