//! Protocol parameters.
use vstd::prelude::*;

verus! {

/// Maximum length of a name.
pub const NAME_LEN: usize = 32;
/// Size of a tape header.
pub const HEADER_SIZE: usize = 64;
/// Size of a segment.
pub const SEGMENT_SIZE: usize = 128;
/// Height of the tree over a tape's segments.
pub const SEGMENT_TREE_HEIGHT: usize = 18;
/// Siblings in a proof over a tape's segments.
pub const SEGMENT_PROOF_LEN: usize = 18;
/// Height of the tree over a spool's tapes.
pub const TAPE_TREE_HEIGHT: usize = 10;
/// Siblings in a proof over a spool's tapes.
pub const TAPE_PROOF_LEN: usize = 10;
/// Most segments one tape may hold.
pub const MAX_SEGMENTS_PER_TAPE: u64 = 262144;
/// Most tapes one spool may hold.
pub const MAX_TAPES_PER_SPOOL: u64 = 1000;
/// Rent of one segment for one block.
pub const RENT_PER_SEGMENT: u64 = 1;
/// Duration of one block in seconds.
pub const BLOCK_DURATION_SECONDS: u64 = 60;
/// Number of blocks per epoch.
pub const EPOCH_BLOCKS: u64 = 10;
/// Epochs between two raises of the participation target.
pub const ADJUSTMENT_INTERVAL: u64 = 50;
/// Number of blocks per year.
pub const BLOCKS_PER_YEAR: u64 = 525600;
/// Number of epochs per year.
pub const EPOCHS_PER_YEAR: u64 = 52560;
/// Highest consistency multiplier.
pub const MAX_CONSISTENCY_MULTIPLIER: u64 = 32;
/// Lowest consistency multiplier.
pub const MIN_CONSISTENCY_MULTIPLIER: u64 = 1;
/// Lowest mining difficulty.
pub const MIN_MINING_DIFFICULTY: u64 = 1;
/// Lowest packing difficulty.
pub const MIN_PACKING_DIFFICULTY: u64 = 0;
/// Lowest participation target.
pub const MIN_PARTICIPATION_TARGET: u64 = 1;
/// Highest participation target.
pub const MAX_PARTICIPATION_TARGET: u64 = 100;
/// Bytes of one entry of the slot-hash record: a slot and a digest.
pub const SLOTHASH_SIZE: usize = 40;

} // verus!
