//! The mining transition: duplicate detection, the consistency multiplier,
//! rewards, and block and epoch progression with difficulty adjustment.
use vstd::prelude::*;
use crate::challenge::{
    challenge_of, compute_challenge, compute_next_challenge, compute_recall_tape,
    next_challenge_of, recall_tape_of,
};
use crate::consts::{
    ADJUSTMENT_INTERVAL, BLOCK_DURATION_SECONDS, EPOCHS_PER_YEAR, EPOCH_BLOCKS,
    MAX_CONSISTENCY_MULTIPLIER, MAX_PARTICIPATION_TARGET, MIN_CONSISTENCY_MULTIPLIER,
    MIN_MINING_DIFFICULTY, MIN_PACKING_DIFFICULTY, MIN_PARTICIPATION_TARGET, NAME_LEN, RENT_PER_SEGMENT, SLOTHASH_SIZE,
};
use crate::solution::{solution_outcome, verify_solution};
use crate::state::{
    rent_per_block_of, sat_mul, Archive, Block, Epoch, Mine, Miner, Pubkey, Tape, TapeError,
};

verus! {

/// `x` clamped to the range of `i64`.
pub open spec fn clamp_i64(x: int) -> i64 {
    if x > i64::MAX {
        i64::MAX
    } else if x < i64::MIN {
        i64::MIN
    } else {
        x as i64
    }
}

/// `a + b`, saturating at the bounds of `i64`.
pub fn i64_saturating_add(a: i64, b: i64) -> (r: i64)
    ensures
        r == clamp_i64(a + b),
{
    let s: i128 = a as i128 + b as i128;
    if s > i64::MAX as i128 {
        i64::MAX
    } else if s < i64::MIN as i128 {
        i64::MIN
    } else {
        s as i64
    }
}

/// `a - b`, saturating at the bounds of `i64`.
pub fn i64_saturating_sub(a: i64, b: i64) -> (r: i64)
    ensures
        r == clamp_i64(a - b),
{
    let s: i128 = a as i128 - b as i128;
    if s > i64::MAX as i128 {
        i64::MAX
    } else if s < i64::MIN as i128 {
        i64::MIN
    } else {
        s as i64
    }
}

/// The larger of two numbers.
pub open spec fn max_u64(a: u64, b: u64) -> u64 {
    if a >= b { a } else { b }
}

/// The smaller of two numbers.
pub open spec fn min_u64(a: u64, b: u64) -> u64 {
    if a <= b { a } else { b }
}

/// No proof has come for a block duration since the last one.
pub open spec fn stalled(block: Block, now: i64) -> bool {
    now > clamp_i64(block.last_proof_at + BLOCK_DURATION_SECONDS)
}

/// Whether the block has stalled: no proof for a block duration since the
/// last one.
pub fn has_stalled(block: &Block, current_time: i64) -> (r: bool)
    ensures
        r == stalled(*block, current_time),
{
    current_time > i64_saturating_add(block.last_proof_at, BLOCK_DURATION_SECONDS as i64)
}

/// Whether a submission may go on: a miner that already proved in this block
/// is refused unless the block has stalled, and a tolerated duplicate is
/// counted on the epoch.
pub fn check_submission(miner: &Miner, block: &Block, epoch: &mut Epoch, current_time: i64) -> (r: Result<(), TapeError>)
    ensures
        miner.last_proof_block != block.number ==> r is Ok && *final(epoch) == *old(epoch),
        miner.last_proof_block == block.number && stalled(*block, current_time) ==> r is Ok && *final(epoch)
            == (Epoch { duplicates: old(epoch).duplicates.saturating_add(1), ..*old(epoch) }),
        miner.last_proof_block == block.number && !stalled(*block, current_time) ==> r == Err::<(), TapeError>(
            TapeError::DuplicateSubmission,
        ) && *final(epoch) == *old(epoch),
{
    if miner.last_proof_block == block.number {
        if has_stalled(block, current_time) {
            epoch.duplicates = epoch.duplicates.saturating_add(1);
            Ok(())
        } else {
            Err(TapeError::DuplicateSubmission)
        }
    } else {
        Ok(())
    }
}

/// The multiplier after a proof: one up (to the ceiling) for a proof in the
/// block right after the miner's last one, else one down (to the floor).
pub open spec fn next_multiplier(multiplier: u64, last_proof_block: u64, block_number: u64) -> u64 {
    if last_proof_block.saturating_add(1) == block_number {
        min_u64(multiplier.saturating_add(1), MAX_CONSISTENCY_MULTIPLIER)
    } else {
        max_u64(multiplier.saturating_sub(1), MIN_CONSISTENCY_MULTIPLIER)
    }
}

/// Moves the miner's multiplier up or down by its consistency.
pub fn update_multiplier(miner: &mut Miner, block: &Block)
    ensures
        *final(miner) == (Miner {
            multiplier: next_multiplier(old(miner).multiplier, old(miner).last_proof_block, block.number),
            ..*old(miner)
        }),
        MIN_CONSISTENCY_MULTIPLIER <= final(miner).multiplier,
        old(miner).multiplier <= MAX_CONSISTENCY_MULTIPLIER ==> final(miner).multiplier <= MAX_CONSISTENCY_MULTIPLIER,
{
    if miner.last_proof_block.saturating_add(1) == block.number {
        let m = miner.multiplier.saturating_add(1);
        miner.multiplier = if m <= MAX_CONSISTENCY_MULTIPLIER { m } else { MAX_CONSISTENCY_MULTIPLIER };
    } else {
        let m = miner.multiplier.saturating_sub(1);
        miner.multiplier = if m >= MIN_CONSISTENCY_MULTIPLIER { m } else { MIN_CONSISTENCY_MULTIPLIER };
    }
}

/// A reward scaled by `multiplier / MAX_CONSISTENCY_MULTIPLIER`.
pub open spec fn scaled_reward(reward: u64, multiplier: u64) -> u64 {
    (sat_mul(reward, multiplier) / MAX_CONSISTENCY_MULTIPLIER) as u64
}

/// Scales a reward by the miner's multiplier.
pub fn get_scaled_reward(reward: u64, multiplier: u64) -> (r: u64)
    requires
        MIN_CONSISTENCY_MULTIPLIER <= multiplier <= MAX_CONSISTENCY_MULTIPLIER,
    ensures
        r == scaled_reward(reward, multiplier),
{
    crate::state::saturating_mul(reward, multiplier) / MAX_CONSISTENCY_MULTIPLIER
}

/// A miner's reward: an equal share of the epoch's reward rate, scaled by the
/// multiplier, halved where the tape does not cover a block of rent.
pub open spec fn reward_of(epoch: Epoch, tape: Tape, multiplier: u64) -> u64 {
    let scaled = scaled_reward((epoch.reward_rate / epoch.target_participation) as u64, multiplier);
    if tape.balance >= rent_per_block_of(tape.total_segments) {
        scaled
    } else {
        (scaled / 2) as u64
    }
}

/// The reward of one proof.
pub fn calculate_reward(epoch: &Epoch, tape: &Tape, multiplier: u64) -> (r: u64)
    requires
        epoch.target_participation > 0,
        MIN_CONSISTENCY_MULTIPLIER <= multiplier <= MAX_CONSISTENCY_MULTIPLIER,
    ensures
        r == reward_of(*epoch, *tape, multiplier),
{
    let available_reward = epoch.reward_rate / epoch.target_participation;
    let scaled_reward = get_scaled_reward(available_reward, multiplier);
    if tape.has_minimum_rent() {
        scaled_reward
    } else {
        scaled_reward / 2
    }
}

/// Books an accepted proof on the miner.
pub fn update_miner_state(
    miner: &mut Miner,
    block: &Block,
    final_reward: u64,
    current_time: i64,
    next_miner_challenge: [u8; 32],
)
    ensures
        *final(miner) == (Miner {
            unclaimed_rewards: old(miner).unclaimed_rewards.saturating_add(final_reward),
            total_rewards: old(miner).total_rewards.saturating_add(final_reward),
            total_proofs: old(miner).total_proofs.saturating_add(1),
            last_proof_block: block.number,
            challenge: next_miner_challenge,
            last_proof_at: current_time,
            ..*old(miner)
        }),
{
    miner.unclaimed_rewards = miner.unclaimed_rewards.saturating_add(final_reward);
    miner.total_rewards = miner.total_rewards.saturating_add(final_reward);
    miner.total_proofs = miner.total_proofs.saturating_add(1);
    miner.last_proof_block = block.number;
    miner.challenge = next_miner_challenge;
    miner.last_proof_at = current_time;
}

/// Charges the rent owed up to `block_number` to the tape's balance.
pub fn update_tape_balance(tape: &mut Tape, block_number: u64)
    ensures
        *final(tape) == (Tape {
            balance: old(tape).balance.saturating_sub(
                sat_mul(
                    rent_per_block_of(old(tape).total_segments),
                    block_number.saturating_sub(old(tape).last_rent_block),
                ),
            ),
            ..*old(tape)
        }),
{
    let rent = tape.rent_owed(block_number);
    tape.balance = tape.balance.saturating_sub(rent);
}

/// Starts the next block.
pub fn advance_block(block: &mut Block, current_time: i64)
    ensures
        *final(block) == (Block {
            progress: 0,
            last_proof_at: current_time,
            last_block_at: current_time,
            number: old(block).number.saturating_add(1),
            ..*old(block)
        }),
{
    block.progress = 0;
    block.last_proof_at = current_time;
    block.last_block_at = current_time;
    block.number = block.number.saturating_add(1);
}

/// The participation target for the next epoch: one up (to the ceiling) on
/// every adjustment interval without duplicates, one down (to the floor)
/// after any duplicate.
pub open spec fn participation_after(e: Epoch) -> u64 {
    if e.duplicates == 0 {
        if e.number % ADJUSTMENT_INTERVAL == 0 {
            min_u64(e.target_participation.saturating_add(1), MAX_PARTICIPATION_TARGET)
        } else {
            e.target_participation
        }
    } else {
        max_u64(e.target_participation.saturating_sub(1), MIN_PARTICIPATION_TARGET)
    }
}

/// The mining difficulty for the next epoch: one up where the epoch's mean
/// block time was below the block duration, else one down (to the floor).
/// The mean `elapsed / EPOCH_BLOCKS` is below the duration exactly where
/// `elapsed` is below `EPOCH_BLOCKS * BLOCK_DURATION_SECONDS`.
pub open spec fn difficulty_after(e: Epoch, now: i64) -> u64 {
    if clamp_i64(now - e.last_epoch_at) < EPOCH_BLOCKS * BLOCK_DURATION_SECONDS {
        e.mining_difficulty.saturating_add(1)
    } else {
        max_u64(e.mining_difficulty.saturating_sub(1), MIN_MINING_DIFFICULTY)
    }
}

/// The epoch after it reached its block quota, before its reward rate is set.
pub open spec fn advanced_epoch(e: Epoch, now: i64) -> Epoch {
    Epoch {
        number: e.number.saturating_add(1),
        last_epoch_at: now,
        progress: 0,
        duplicates: 0,
        mining_difficulty: max_u64(difficulty_after(e, now), MIN_MINING_DIFFICULTY),
        target_participation: max_u64(participation_after(e), MIN_PARTICIPATION_TARGET),
        ..e
    }
}

/// Adjusts the participation target.
pub fn adjust_participation(epoch: &mut Epoch)
    ensures
        *final(epoch) == (Epoch { target_participation: participation_after(*old(epoch)), ..*old(epoch) }),
{
    if epoch.duplicates == 0 {
        if epoch.number % ADJUSTMENT_INTERVAL == 0 {
            let t = epoch.target_participation.saturating_add(1);
            epoch.target_participation = if t <= MAX_PARTICIPATION_TARGET { t } else { MAX_PARTICIPATION_TARGET };
        }
    } else {
        let t = epoch.target_participation.saturating_sub(1);
        epoch.target_participation = if t >= MIN_PARTICIPATION_TARGET { t } else { MIN_PARTICIPATION_TARGET };
    }
}

/// Adjusts the mining difficulty.
pub fn adjust_difficulty(epoch: &mut Epoch, current_time: i64)
    ensures
        *final(epoch) == (Epoch { mining_difficulty: difficulty_after(*old(epoch), current_time), ..*old(epoch) }),
{
    let elapsed_time = i64_saturating_sub(current_time, epoch.last_epoch_at);
    if elapsed_time < (EPOCH_BLOCKS * BLOCK_DURATION_SECONDS) as i64 {
        epoch.mining_difficulty = epoch.mining_difficulty.saturating_add(1);
    } else {
        let d = epoch.mining_difficulty.saturating_sub(1);
        epoch.mining_difficulty = if d >= MIN_MINING_DIFFICULTY { d } else { MIN_MINING_DIFFICULTY };
    }
}

/// Moves to the next epoch.
pub fn advance_epoch(epoch: &mut Epoch, current_time: i64)
    ensures
        *final(epoch) == advanced_epoch(*old(epoch), current_time),
{
    adjust_participation(epoch);
    adjust_difficulty(epoch, current_time);
    epoch.number = epoch.number.saturating_add(1);
    epoch.last_epoch_at = current_time;
    epoch.progress = 0;
    epoch.duplicates = 0;
    if epoch.mining_difficulty < MIN_MINING_DIFFICULTY {
        epoch.mining_difficulty = MIN_MINING_DIFFICULTY;
    }
    if epoch.target_participation < MIN_PARTICIPATION_TARGET {
        epoch.target_participation = MIN_PARTICIPATION_TARGET;
    }
}

/// The base emission per block in each year of the schedule.
pub open spec fn base_rate_table() -> Seq<u64> {
    seq![
        10000000000u64, 7500000000u64, 5625000000u64, 4218750000u64, 3164062500u64,
        2373046875u64, 1779785156u64, 1334838867u64, 1001129150u64, 750846862u64,
        563135147u64, 422351360u64, 316763520u64, 237572640u64, 178179480u64,
        133634610u64, 100225957u64, 75169468u64, 56377101u64, 42282825u64,
        31712119u64, 23784089u64, 17838067u64, 13378550u64, 10033913u64,
    ]
}

/// The base emission of an epoch: the table's entry for the epoch's year,
/// and nothing after the last year of the table.
pub open spec fn base_rate(epoch_number: u64) -> u64 {
    let year = epoch_number / EPOCHS_PER_YEAR;
    if year < 25 {
        base_rate_table()[year as int]
    } else {
        0
    }
}

/// The base emission of an epoch.
pub fn get_base_rate(current_epoch: u64) -> (r: u64)
    ensures
        r == base_rate(current_epoch),
{
    let table: [u64; 25] = [
        10000000000, 7500000000, 5625000000, 4218750000, 3164062500,
        2373046875, 1779785156, 1334838867, 1001129150, 750846862,
        563135147, 422351360, 316763520, 237572640, 178179480,
        133634610, 100225957, 75169468, 56377101, 42282825,
        31712119, 23784089, 17838067, 13378550, 10033913,
    ];
    assert(table@ =~= base_rate_table());
    let year = current_epoch / EPOCHS_PER_YEAR;
    if year < 25 {
        table[year as usize]
    } else {
        0
    }
}

/// The epoch after one accepted proof: past its block quota it moves to the
/// next epoch and takes the base emission plus the storage reward as its
/// rate; otherwise its progress goes up by one.
pub open spec fn epoch_after_proof(e: Epoch, archive: Archive, now: i64) -> Epoch {
    if e.progress >= EPOCH_BLOCKS {
        let a = advanced_epoch(e, now);
        Epoch {
            reward_rate: sat_mul(archive.segments_stored, RENT_PER_SEGMENT).saturating_add(
                base_rate(a.number),
            ),
            ..a
        }
    } else {
        Epoch { progress: e.progress.saturating_add(1), ..e }
    }
}

/// Books one accepted proof on the epoch.
pub fn update_epoch(epoch: &mut Epoch, archive: &Archive, current_time: i64)
    ensures
        *final(epoch) == epoch_after_proof(*old(epoch), *archive, current_time),
{
    if epoch.progress >= EPOCH_BLOCKS {
        advance_epoch(epoch, current_time);
        let base_rate = get_base_rate(epoch.number);
        let storage_rate = archive.block_reward();
        epoch.reward_rate = storage_rate.saturating_add(base_rate);
    } else {
        epoch.progress = epoch.progress.saturating_add(1);
    }
}

/// Whether a submission is accepted, and the first failure where it is not:
/// a duplicate in a fresh block, a tape other than the recalled one, a
/// solution that does not verify, or a slot-hash record too short to roll
/// the challenges.
pub open spec fn mine_result(
    epoch: Epoch,
    block: Block,
    miner: Miner,
    tape: Tape,
    args: Mine,
    now: i64,
    slot_hashes: Seq<u8>,
) -> Result<(), TapeError> {
    let challenge = challenge_of(block.challenge@, miner.challenge@);
    if miner.last_proof_block == block.number && !stalled(block, now) {
        Err(TapeError::DuplicateSubmission)
    } else if tape.number != recall_tape_of(challenge, block.challenge_set) {
        Err(TapeError::UnexpectedTape)
    } else if solution_outcome(epoch, tape, miner.authority@, challenge, args.pow, args.poa) is Err {
        solution_outcome(epoch, tape, miner.authority@, challenge, args.pow, args.poa)
    } else if slot_hashes.len() < SLOTHASH_SIZE {
        Err(TapeError::InvalidAccountData)
    } else {
        Ok(())
    }
}

/// The miner after an accepted proof in `block`: new multiplier, the reward
/// booked, and the challenge rolled with the slot hash.
pub open spec fn miner_after_proof(
    new: Miner,
    old: Miner,
    epoch: Epoch,
    tape: Tape,
    block: Block,
    now: i64,
    slot_hashes: Seq<u8>,
) -> bool {
    let multiplier = next_multiplier(old.multiplier, old.last_proof_block, block.number);
    let reward = reward_of(epoch, tape, multiplier);
    &&& new.authority == old.authority
    &&& new.name == old.name
    &&& new.commitment == old.commitment
    &&& new.multiplier == multiplier
    &&& new.unclaimed_rewards == old.unclaimed_rewards.saturating_add(reward)
    &&& new.total_rewards == old.total_rewards.saturating_add(reward)
    &&& new.total_proofs == old.total_proofs.saturating_add(1)
    &&& new.last_proof_block == block.number
    &&& new.last_proof_at == now
    &&& new.challenge@ == next_challenge_of(old.challenge@, slot_hashes)
}

/// The block after an accepted proof: its progress goes up by one, and once
/// it reaches the participation target the next block starts with a rolled
/// challenge drawn over the tapes stored now.
pub open spec fn block_after_proof(
    new: Block,
    old: Block,
    target_participation: u64,
    archive: Archive,
    now: i64,
    slot_hashes: Seq<u8>,
) -> bool {
    let progress = old.progress.saturating_add(1);
    if progress >= target_participation {
        &&& new.progress == 0
        &&& new.number == old.number.saturating_add(1)
        &&& new.last_proof_at == now
        &&& new.last_block_at == now
        &&& new.challenge@ == next_challenge_of(old.challenge@, slot_hashes)
        &&& new.challenge_set == archive.tapes_stored
    } else {
        new == Block { progress, ..old }
    }
}

/// The epoch with a tolerated duplicate counted.
pub open spec fn epoch_with_duplicate(e: Epoch, duplicate: bool) -> Epoch {
    if duplicate {
        Epoch { duplicates: e.duplicates.saturating_add(1), ..e }
    } else {
        e
    }
}

/// The mining transition: checks the submission against the block, the
/// miner's challenge and the recalled tape, then books the proof on the
/// miner, the tape, the block and the epoch. A failure changes nothing.
pub fn process_mine(
    epoch: &mut Epoch,
    block: &mut Block,
    miner: &mut Miner,
    tape: &mut Tape,
    archive: &Archive,
    args: &Mine,
    current_time: i64,
    slot_hashes: &[u8],
) -> (r: Result<(), TapeError>)
    requires
        old(epoch).wf(),
        old(miner).multiplier <= MAX_CONSISTENCY_MULTIPLIER,
    ensures
        r == mine_result(*old(epoch), *old(block), *old(miner), *old(tape), *args, current_time, slot_hashes@),
        r is Err ==> *final(epoch) == *old(epoch) && *final(block) == *old(block) && *final(miner)
            == *old(miner) && *final(tape) == *old(tape),
        r is Ok ==> {
            &&& miner_after_proof(*final(miner), *old(miner), *old(epoch), *old(tape), *old(block), current_time, slot_hashes@)
            &&& *final(tape) == (Tape {
                balance: old(tape).balance.saturating_sub(
                    sat_mul(
                        rent_per_block_of(old(tape).total_segments),
                        old(block).number.saturating_sub(old(tape).last_rent_block),
                    ),
                ),
                ..*old(tape)
            })
            &&& block_after_proof(*final(block), *old(block), old(epoch).target_participation, *archive, current_time, slot_hashes@)
            &&& *final(epoch) == epoch_after_proof(
                epoch_with_duplicate(*old(epoch), old(miner).last_proof_block == old(block).number),
                *archive,
                current_time,
            )
        },
        final(epoch).wf(),
        final(miner).multiplier <= MAX_CONSISTENCY_MULTIPLIER,
{
    let mut next_epoch: Epoch = *epoch;
    match check_submission(miner, block, &mut next_epoch, current_time) {
        Ok(()) => {},
        Err(e) => {
            return Err(e);
        },
    }
    let miner_challenge = compute_challenge(&block.challenge, &miner.challenge);
    let tape_number = compute_recall_tape(&miner_challenge, block.challenge_set);
    if tape.number != tape_number {
        return Err(TapeError::UnexpectedTape);
    }
    match verify_solution(epoch, tape, &miner.authority, &miner_challenge, &args.pow, &args.poa) {
        Ok(()) => {},
        Err(e) => {
            return Err(e);
        },
    }
    let next_miner_challenge = match compute_next_challenge(&miner.challenge, slot_hashes) {
        Ok(c) => c,
        Err(e) => {
            return Err(e);
        },
    };
    let next_block_challenge = match compute_next_challenge(&block.challenge, slot_hashes) {
        Ok(c) => c,
        Err(e) => {
            return Err(e);
        },
    };
    *epoch = next_epoch;
    update_multiplier(miner, block);
    let reward = calculate_reward(epoch, tape, miner.multiplier);
    update_miner_state(miner, block, reward, current_time, next_miner_challenge);
    update_tape_balance(tape, block.number);
    block.progress = block.progress.saturating_add(1);
    if block.progress >= epoch.target_participation {
        advance_block(block, current_time);
        block.challenge = next_block_challenge;
        block.challenge_set = archive.tapes_stored;
    }
    proof {
        lemma_epoch_bounds_kept(*epoch, *archive, current_time);
    }
    update_epoch(epoch, archive, current_time);
    Ok(())
}

/// The genesis records: an empty archive, epoch 1 at the lowest difficulties
/// and participation target with the first year's base rate, and block 1
/// with a challenge rolled from the block's address and drawn over one tape.
pub fn process_initialize(block_address: &Pubkey, slot_hashes: &[u8]) -> (r: Result<(Archive, Epoch, Block), TapeError>)
    ensures
        slot_hashes@.len() < SLOTHASH_SIZE ==> r == Err::<(Archive, Epoch, Block), TapeError>(
            TapeError::InvalidAccountData,
        ),
        slot_hashes@.len() >= SLOTHASH_SIZE ==> r is Ok && ({
            let (a, e, b) = r->Ok_0;
            &&& a == Archive { tapes_stored: 0, segments_stored: 0 }
            &&& e == Epoch {
                number: 1,
                progress: 0,
                mining_difficulty: MIN_MINING_DIFFICULTY,
                packing_difficulty: MIN_PACKING_DIFFICULTY,
                target_participation: MIN_PARTICIPATION_TARGET,
                reward_rate: base_rate(1),
                duplicates: 0,
                last_epoch_at: 0,
            }
            &&& e.wf()
            &&& b.number == 1
            &&& b.progress == 0
            &&& b.last_proof_at == 0
            &&& b.last_block_at == 0
            &&& b.challenge@ == next_challenge_of(block_address@, slot_hashes@)
            &&& b.challenge_set == 1
        }),
{
    let challenge = match compute_next_challenge(block_address, slot_hashes) {
        Ok(c) => c,
        Err(e) => {
            return Err(e);
        },
    };
    let archive = Archive { tapes_stored: 0, segments_stored: 0 };
    let epoch = Epoch {
        number: 1,
        progress: 0,
        mining_difficulty: MIN_MINING_DIFFICULTY,
        packing_difficulty: MIN_PACKING_DIFFICULTY,
        target_participation: MIN_PARTICIPATION_TARGET,
        reward_rate: get_base_rate(1),
        duplicates: 0,
        last_epoch_at: 0,
    };
    let block = Block { number: 1, progress: 0, challenge, challenge_set: 1, last_proof_at: 0, last_block_at: 0 };
    Ok((archive, epoch, block))
}

/// A newly registered miner: no rewards, multiplier zero, and a challenge
/// rolled from its address with the newest slot hash.
pub fn process_register(
    authority: Pubkey,
    name: [u8; NAME_LEN],
    miner_address: &Pubkey,
    slot_hashes: &[u8],
    current_time: i64,
) -> (r: Result<Miner, TapeError>)
    ensures
        slot_hashes@.len() < SLOTHASH_SIZE ==> r == Err::<Miner, TapeError>(TapeError::InvalidAccountData),
        slot_hashes@.len() >= SLOTHASH_SIZE ==> r is Ok && ({
            let m = r->Ok_0;
            &&& m.authority == authority
            &&& m.name == name
            &&& m.challenge@ == next_challenge_of(miner_address@, slot_hashes@)
            &&& m.commitment@ == crate::hash::zero_digest()
            &&& m.multiplier == 0
            &&& m.unclaimed_rewards == 0
            &&& m.total_rewards == 0
            &&& m.total_proofs == 0
            &&& m.last_proof_block == 0
            &&& m.last_proof_at == current_time
        }),
{
    let challenge = match compute_next_challenge(miner_address, slot_hashes) {
        Ok(c) => c,
        Err(e) => {
            return Err(e);
        },
    };
    Ok(Miner {
        authority,
        name,
        unclaimed_rewards: 0,
        challenge,
        commitment: crate::hash::Hash::zeroed().to_bytes(),
        multiplier: 0,
        last_proof_block: 0,
        last_proof_at: current_time,
        total_proofs: 0,
        total_rewards: 0,
    })
}

/// Takes `amount` of the miner's unclaimed rewards, or all of them where
/// `amount` is zero; returns what was taken.
pub fn process_claim(miner: &mut Miner, amount: u64) -> (r: Result<u64, TapeError>)
    ensures
        ({
            let take = if amount == 0 { old(miner).unclaimed_rewards } else { amount };
            &&& take > old(miner).unclaimed_rewards ==> r == Err::<u64, TapeError>(TapeError::ClaimTooLarge)
                && *final(miner) == *old(miner)
            &&& take <= old(miner).unclaimed_rewards ==> r == Ok::<u64, TapeError>(take) && *final(miner)
                == (Miner { unclaimed_rewards: (old(miner).unclaimed_rewards - take) as u64, ..*old(miner) })
        }),
{
    let take = if amount == 0 { miner.unclaimed_rewards } else { amount };
    match miner.unclaimed_rewards.checked_sub(take) {
        Some(rest) => {
            miner.unclaimed_rewards = rest;
            Ok(take)
        },
        None => Err(TapeError::ClaimTooLarge),
    }
}

/// Against a tape that does not cover a block of rent, the same epoch and
/// multiplier pay exactly half (rounded down) of what they pay against an
/// otherwise identical funded tape.
pub proof fn lemma_reward_halved(epoch: Epoch, funded: Tape, unfunded: Tape, multiplier: u64)
    requires
        funded.balance >= rent_per_block_of(funded.total_segments),
        unfunded.balance < rent_per_block_of(unfunded.total_segments),
        unfunded.total_segments == funded.total_segments,
    ensures
        reward_of(epoch, unfunded, multiplier) == reward_of(epoch, funded, multiplier) / 2,
{
}

/// After an accepted proof that did not close its block, the same miner's
/// next submission in that block is refused as a duplicate until the block
/// has stalled; once it has, the submission is counted as a duplicate.
pub proof fn lemma_duplicate_in_block(
    epoch: Epoch,
    block: Block,
    miner: Miner,
    tape: Tape,
    archive: Archive,
    now: i64,
    slot_hashes: Seq<u8>,
    block_after: Block,
    miner_after: Miner,
    epoch_after: Epoch,
    tape_after: Tape,
    args: Mine,
    later: i64,
)
    requires
        miner_after_proof(miner_after, miner, epoch, tape, block, now, slot_hashes),
        block_after_proof(block_after, block, epoch.target_participation, archive, now, slot_hashes),
        block.progress.saturating_add(1) < epoch.target_participation,
    ensures
        !stalled(block_after, later) ==> mine_result(epoch_after, block_after, miner_after, tape_after, args, later, slot_hashes)
            == Err::<(), TapeError>(TapeError::DuplicateSubmission),
        epoch_with_duplicate(epoch_after, miner_after.last_proof_block == block_after.number).duplicates
            == epoch_after.duplicates.saturating_add(1),
{
}

/// Moving to the next epoch keeps the difficulty at or above its floor and
/// the participation target between its floor and its ceiling.
pub proof fn lemma_epoch_bounds_kept(e: Epoch, archive: Archive, now: i64)
    requires
        e.wf(),
    ensures
        epoch_after_proof(e, archive, now).wf(),
        advanced_epoch(e, now).wf(),
{
}

/// Across any sequence of epochs, each following the one before by an
/// accepted proof, the difficulty never drops below its floor and the
/// participation target never leaves its bounds.
pub proof fn lemma_epoch_sequence_bounded(epochs: Seq<Epoch>, archives: Seq<Archive>, times: Seq<i64>)
    requires
        epochs.len() >= 1,
        epochs[0].wf(),
        archives.len() + 1 >= epochs.len(),
        times.len() + 1 >= epochs.len(),
        forall|i: int|
            0 <= i < epochs.len() - 1 ==> #[trigger] epochs[i + 1] == epoch_after_proof(
                epochs[i],
                archives[i],
                times[i],
            ),
    ensures
        forall|i: int| 0 <= i < epochs.len() ==> #[trigger] epochs[i].wf(),
    decreases epochs.len(),
{
    if epochs.len() > 1 {
        let prefix = epochs.drop_last();
        assert forall|i: int| 0 <= i < prefix.len() - 1 implies #[trigger] prefix[i + 1] == epoch_after_proof(
            prefix[i],
            archives[i],
            times[i],
        ) by {
            assert(epochs[i + 1] == epoch_after_proof(epochs[i], archives[i], times[i]));
        }
        lemma_epoch_sequence_bounded(prefix, archives, times);
        let j = epochs.len() - 2;
        assert(prefix[j].wf());
        assert(epochs[j + 1] == epoch_after_proof(epochs[j], archives[j], times[j]));
        lemma_epoch_bounds_kept(epochs[j], archives[j], times[j]);
        assert forall|i: int| 0 <= i < epochs.len() implies #[trigger] epochs[i].wf() by {
            if i < epochs.len() - 1 {
                assert(prefix[i] == epochs[i]);
            }
        }
    }
}

} // verus!
