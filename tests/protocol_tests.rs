use tape_core::challenge::{
    compute_challenge, compute_next_challenge, compute_recall_segment, compute_recall_tape,
};
use tape_core::consts::{BLOCKS_PER_YEAR, EPOCHS_PER_YEAR, MAX_CONSISTENCY_MULTIPLIER, SEGMENT_SIZE};
use tape_core::hash::{hash_left_right, hashv, Leaf};
use tape_core::mining::{
    adjust_difficulty, adjust_participation, calculate_reward, check_submission, get_base_rate,
    get_scaled_reward, has_stalled, process_claim, process_initialize, process_mine, process_register,
    update_epoch, update_multiplier,
};
use tape_core::solution::{check_solution, verify_solution};
use tape_core::state::{
    Archive, Block, Epoch, Mine, Miner, PoA, PoW, ProofPath, Tape, TapeError, TapeState, Writer,
};
use tape_core::tape::{
    compute_leaf, create_tape, process_tape_finalize, process_tape_set_header,
    process_tape_subsidize_rent, process_tape_update, process_tape_write,
};
use tape_core::tree::{MerkleTree, TreeError};

type H = tape_core::hash::Hash;

const AUTHORITY: [u8; 32] = [7u8; 32];
const MINER_ADDRESS: [u8; 32] = [9u8; 32];
const TAPE_ADDRESS: [u8; 32] = [5u8; 32];

fn slot_hashes() -> Vec<u8> {
    (0u8..40).collect()
}

fn segment_bytes() -> [u8; SEGMENT_SIZE] {
    let mut s = [0u8; SEGMENT_SIZE];
    s[..10].copy_from_slice(b"hello tape");
    s
}

fn solve_pow(challenge: &[u8; 32], data: &[u8; 128], min_difficulty: u32) -> PoW {
    for n in 0u64..100_000 {
        let nonce = n.to_le_bytes();
        if let Ok(sol) = crankx::solve(challenge, data, &nonce) {
            if sol.difficulty() >= min_difficulty {
                return PoW { digest: sol.d, nonce: sol.n };
            }
        }
    }
    panic!("no work solution found");
}

fn solve_poa(pubkey: &[u8; 32], data: &[u8; 128], path: ProofPath) -> PoA {
    for bump in 0u8..=15 {
        let table = packx::build_one_bump(pubkey, bump);
        if let Some(sol) = packx::solve_one_bump(data, bump, &table, 0) {
            return PoA { bump: sol.bump, seed: sol.seeds, nonce: sol.nonces, path };
        }
    }
    panic!("no access solution found");
}

fn epoch() -> Epoch {
    Epoch {
        number: 1,
        progress: 0,
        mining_difficulty: 1,
        packing_difficulty: 0,
        target_participation: 5,
        reward_rate: 10_000_000_000,
        duplicates: 0,
        last_epoch_at: 0,
    }
}

fn block(challenge_set: u64, now: i64) -> Block {
    Block { number: 1, progress: 0, challenge: [3u8; 32], challenge_set, last_proof_at: now, last_block_at: now }
}

/// A finalized tape of one segment, its archive, and the path of that segment.
fn finalized_tape() -> (Tape, Archive, ProofPath) {
    let mut tape = create_tape(AUTHORITY, [1u8; 32], 10);
    let mut writer = Writer::new(TAPE_ADDRESS);
    let segment = segment_bytes();
    process_tape_write(&mut tape, &mut writer, &segment, 11).unwrap();
    process_tape_subsidize_rent(&mut tape, BLOCKS_PER_YEAR);
    let mut archive = Archive { tapes_stored: 0, segments_stored: 0 };
    process_tape_finalize(&mut tape, &mut archive).unwrap();
    let leaves = vec![compute_leaf(0, &segment)];
    let proof = writer.state.get_proof(&leaves, 0);
    let mut path = [[0u8; 32]; 18];
    for (i, h) in proof.iter().enumerate() {
        path[i] = h.to_bytes();
    }
    (tape, archive, ProofPath(path))
}

fn mine_args(block: &Block, miner: &Miner, path: ProofPath) -> Mine {
    let challenge = compute_challenge(&block.challenge, &miner.challenge);
    let segment = segment_bytes();
    let pow = solve_pow(&challenge, &segment, 1);
    let poa = solve_poa(&miner.authority, &segment, path);
    Mine { pow, poa }
}

#[test]
fn recall_on_empty_state() {
    let challenge = [0xabu8; 32];
    assert_eq!(compute_recall_tape(&challenge, 0), 1);
    assert_eq!(compute_recall_segment(&challenge, 0), 0);
}

#[test]
fn recall_formulas_exact() {
    let mut challenge = [0u8; 32];
    challenge[0] = 10;
    challenge[8] = 7;
    challenge[9] = 1;
    assert_eq!(compute_recall_tape(&challenge, 3), 10 % 3 + 1);
    assert_eq!(compute_recall_segment(&challenge, 100), 263 % 100);
    assert_eq!(compute_recall_tape(&challenge, 1), 1);
}

#[test]
fn challenge_rolls_with_slot_hash() {
    let current = [1u8; 32];
    let short = vec![0u8; 39];
    assert_eq!(compute_next_challenge(&current, &short), Err(TapeError::InvalidAccountData));
    let slots = slot_hashes();
    let next = compute_next_challenge(&current, &slots).unwrap();
    let mut joined = current.to_vec();
    joined.extend_from_slice(&slots);
    assert_eq!(next, *blake3::hash(&joined).as_bytes());
    assert_ne!(next, current);
    let mine = compute_challenge(&[1u8; 32], &[2u8; 32]);
    let mut both = vec![1u8; 32];
    both.extend_from_slice(&[2u8; 32]);
    assert_eq!(mine, *blake3::hash(&both).as_bytes());
}

#[test]
fn node_hash_is_order_independent() {
    let a = hashv(&[b"a"]);
    let b = hashv(&[b"b"]);
    assert_eq!(hash_left_right(a, b), hash_left_right(b, a));
    let (lo, hi) = if a.to_bytes() <= b.to_bytes() { (a, b) } else { (b, a) };
    let expected = hashv(&[b"NODE".as_ref(), lo.value.as_ref(), hi.value.as_ref()]);
    assert_eq!(hash_left_right(a, b), expected);
}

#[test]
fn leaf_hash_is_tagged() {
    let leaf = Leaf::new(&[b"x", b"yz"]);
    assert_eq!(leaf.to_bytes(), *blake3::hash(b"LEAFxyz").as_bytes());
    assert_eq!(tape_core::hash::hash(b"abc").to_bytes(), *blake3::hash(b"abc").as_bytes());
}

#[test]
fn full_tree_proves_every_leaf() {
    const N: usize = 3;
    let leaves: Vec<Leaf> = (0..8u8).map(|i| Leaf::new(&[&[i]])).collect();
    let mut tree = MerkleTree::<N>::new(&[b"seed"]);
    for leaf in &leaves {
        tree.try_add_leaf(*leaf).unwrap();
    }
    assert_eq!(tree.try_add_leaf(leaves[0]), Err(TreeError::TreeFull));
    for i in 0..leaves.len() {
        let proof = tree.get_proof(&leaves, i);
        assert!(tree.contains_leaf(&proof, leaves[i]));
    }
}

#[test]
fn tree_adds_n_leaves_and_proves_them() {
    const N: usize = 4;
    let leaves: Vec<Leaf> = (0..N as u8).map(|i| Leaf::new(&[&[i, 1]])).collect();
    let mut tree = MerkleTree::<N>::new(&[b"seed"]);
    for leaf in &leaves {
        tree.try_add_leaf(*leaf).unwrap();
    }
    for i in 0..N {
        let proof = tree.get_proof(&leaves, i);
        assert!(tree.contains_leaf(&proof, leaves[i]));
    }
    assert_eq!(tree.get_leaf_count(), N as u64);
    assert_eq!(tree.get_capacity(), 16);
}

#[test]
fn empty_tree_root_is_top_zero() {
    let tree = MerkleTree::<3>::new(&[b"seed"]);
    let z0 = hashv(&[b"seed"]);
    let z1 = hash_left_right(z0, z0);
    let z2 = hash_left_right(z1, z1);
    assert_eq!(tree.get_root(), z2);
    assert_eq!(tree.get_empty_leaf().to_bytes(), z0.to_bytes());
    assert_eq!(tree.get_depth(), 3);
}

#[test]
fn replace_round_trip_restores_root() {
    const N: usize = 4;
    let leaves: Vec<Leaf> = (0..5u8).map(|i| Leaf::new(&[&[i]])).collect();
    let mut tree = MerkleTree::<N>::new(&[b"seed"]);
    for leaf in &leaves {
        tree.try_add_leaf(*leaf).unwrap();
    }
    let root = tree.get_root();
    let proof = tree.get_proof(&leaves, 2);
    let y = Leaf::new(&[b"other"]);
    tree.try_replace_leaf(&proof, leaves[2], y).unwrap();
    assert_ne!(tree.get_root(), root);
    tree.try_replace_leaf(&proof, y, leaves[2]).unwrap();
    assert_eq!(tree.get_root(), root);
}

#[test]
fn replace_errors() {
    const N: usize = 4;
    let leaves: Vec<Leaf> = (0..3u8).map(|i| Leaf::new(&[&[i]])).collect();
    let mut tree = MerkleTree::<N>::new(&[b"seed"]);
    for leaf in &leaves {
        tree.try_add_leaf(*leaf).unwrap();
    }
    let proof = tree.get_proof(&leaves, 1);
    let before = tree;
    assert_eq!(tree.try_replace_leaf(&proof[..3], leaves[1], leaves[0]), Err(TreeError::ProofLength));
    assert_eq!(tree.try_replace_leaf(&proof, leaves[0], leaves[1]), Err(TreeError::InvalidProof));
    assert_eq!(tree, before);
    assert!(!tree.contains_leaf(&proof[..3], leaves[1]));
}

#[test]
fn reward_is_halved_for_unfunded_tape() {
    let e = epoch();
    let funded = Tape { balance: 100, total_segments: 10, ..create_tape(AUTHORITY, [0u8; 32], 0) };
    let unfunded = Tape { balance: 9, ..funded };
    let full = calculate_reward(&e, &funded, 3);
    let half = calculate_reward(&e, &unfunded, 3);
    assert_eq!(full, 10_000_000_000 / 5 * 3 / MAX_CONSISTENCY_MULTIPLIER);
    assert_eq!(half, full / 2);
    assert_eq!(get_scaled_reward(64, 16), 32);
}

#[test]
fn multiplier_moves_with_consistency() {
    let mut miner = process_register(AUTHORITY, [0u8; 32], &MINER_ADDRESS, &slot_hashes(), 5).unwrap();
    let b = block(0, 0);
    miner.last_proof_block = 0;
    update_multiplier(&mut miner, &b);
    assert_eq!(miner.multiplier, 1);
    miner.multiplier = MAX_CONSISTENCY_MULTIPLIER;
    update_multiplier(&mut miner, &b);
    assert_eq!(miner.multiplier, MAX_CONSISTENCY_MULTIPLIER);
    miner.last_proof_block = 7;
    update_multiplier(&mut miner, &b);
    assert_eq!(miner.multiplier, MAX_CONSISTENCY_MULTIPLIER - 1);
    miner.multiplier = 1;
    update_multiplier(&mut miner, &b);
    assert_eq!(miner.multiplier, 1);
}

#[test]
fn base_rate_schedule() {
    assert_eq!(get_base_rate(0), 10_000_000_000);
    assert_eq!(get_base_rate(EPOCHS_PER_YEAR - 1), 10_000_000_000);
    assert_eq!(get_base_rate(EPOCHS_PER_YEAR), 7_500_000_000);
    assert_eq!(get_base_rate(24 * EPOCHS_PER_YEAR), 10_033_913);
    assert_eq!(get_base_rate(25 * EPOCHS_PER_YEAR), 0);
}

#[test]
fn epoch_adjustment_stays_bounded() {
    let mut e = Epoch { duplicates: 3, target_participation: 1, mining_difficulty: 1, ..epoch() };
    adjust_participation(&mut e);
    assert_eq!(e.target_participation, 1);
    adjust_difficulty(&mut e, 100_000);
    assert_eq!(e.mining_difficulty, 1);
    let mut fast = Epoch { duplicates: 0, number: 50, target_participation: 100, ..epoch() };
    adjust_participation(&mut fast);
    assert_eq!(fast.target_participation, 100);
    adjust_difficulty(&mut fast, 599);
    assert_eq!(fast.mining_difficulty, 2);
    let archive = Archive { tapes_stored: 2, segments_stored: 30 };
    let mut full = Epoch { progress: 10, duplicates: 1, target_participation: 4, ..epoch() };
    update_epoch(&mut full, &archive, 10_000);
    assert_eq!(full.number, 2);
    assert_eq!(full.progress, 0);
    assert_eq!(full.duplicates, 0);
    assert_eq!(full.target_participation, 3);
    assert_eq!(full.mining_difficulty, 1);
    assert_eq!(full.last_epoch_at, 10_000);
    assert_eq!(full.reward_rate, 30 + 10_000_000_000);
    let mut partial = epoch();
    update_epoch(&mut partial, &archive, 10_000);
    assert_eq!(partial.progress, 1);
}

#[test]
fn stall_and_duplicate_checks() {
    let b = block(1, 1000);
    assert!(!has_stalled(&b, 1060));
    assert!(has_stalled(&b, 1061));
    let miner = Miner { last_proof_block: 1, ..process_register(AUTHORITY, [0u8; 32], &MINER_ADDRESS, &slot_hashes(), 0).unwrap() };
    let mut e = epoch();
    assert_eq!(check_submission(&miner, &b, &mut e, 1000), Err(TapeError::DuplicateSubmission));
    assert_eq!(e.duplicates, 0);
    assert_eq!(check_submission(&miner, &b, &mut e, 1061), Ok(()));
    assert_eq!(e.duplicates, 1);
    let other = Miner { last_proof_block: 0, ..miner };
    assert_eq!(check_submission(&other, &b, &mut e, 1000), Ok(()));
    assert_eq!(e.duplicates, 1);
}

#[test]
fn solution_verdicts() {
    assert_eq!(check_solution(5, 0, 4, 9, true, true, true), Err(TapeError::SolutionTooEasy));
    assert_eq!(check_solution(5, 3, 5, 2, true, true, true), Err(TapeError::SolutionTooEasy));
    assert_eq!(check_solution(5, 3, 5, 3, true, false, true), Err(TapeError::SolutionInvalid));
    assert_eq!(check_solution(5, 3, 5, 3, false, false, true), Ok(()));
    assert_eq!(check_solution(5, 3, 5, 3, false, false, false), Err(TapeError::SolutionInvalid));
    assert_eq!(check_solution(5, 3, 9, 9, true, true, true), Ok(()));
}

#[test]
fn end_to_end_mine() {
    let now = 1_000;
    let mut miner = process_register(AUTHORITY, [2u8; 32], &MINER_ADDRESS, &slot_hashes(), now).unwrap();
    assert_eq!(miner.multiplier, 0);
    assert_eq!(miner.unclaimed_rewards, 0);
    let (mut tape, archive, path) = finalized_tape();
    assert_eq!(tape.number, 1);
    assert_eq!(archive.tapes_stored, 1);
    let mut b = block(archive.tapes_stored, now);
    let mut e = epoch();
    let args = mine_args(&b, &miner, path);
    let progress = b.progress;
    process_mine(&mut e, &mut b, &mut miner, &mut tape, &archive, &args, now, &slot_hashes()).unwrap();
    assert_eq!(miner.total_proofs, 1);
    assert!(miner.unclaimed_rewards > 0);
    assert_eq!(b.progress, progress + 1);
    assert_eq!(e.progress, 1);
}

#[test]
fn wrong_tape_and_bad_solution_are_refused() {
    let now = 1_000;
    let mut miner = process_register(AUTHORITY, [2u8; 32], &MINER_ADDRESS, &slot_hashes(), now).unwrap();
    let (mut tape, archive, path) = finalized_tape();
    let mut b = block(archive.tapes_stored, now);
    let mut e = epoch();
    let args = mine_args(&b, &miner, path);
    let mut other = Tape { number: 2, ..tape };
    assert_eq!(
        process_mine(&mut e, &mut b, &mut miner, &mut other, &archive, &args, now, &slot_hashes()),
        Err(TapeError::UnexpectedTape)
    );
    let mut bad_path = path;
    bad_path.0[0] = [0u8; 32];
    let bad = Mine { poa: PoA { path: bad_path, ..args.poa }, ..args };
    let e0 = e;
    let r = process_mine(&mut e, &mut b, &mut miner, &mut tape, &archive, &bad, now, &slot_hashes());
    assert_eq!(r, Err(TapeError::SolutionInvalid));
    assert_eq!(e, e0);
    assert_eq!(miner.total_proofs, 0);
    let hard = Epoch { mining_difficulty: 300, ..e };
    let challenge = compute_challenge(&b.challenge, &miner.challenge);
    assert_eq!(
        verify_solution(&hard, &tape, &miner.authority, &challenge, &args.pow, &args.poa),
        Err(TapeError::SolutionTooEasy)
    );
}

#[test]
fn duplicate_in_block() {
    let now = 1_000;
    let mut miner = process_register(AUTHORITY, [2u8; 32], &MINER_ADDRESS, &slot_hashes(), now).unwrap();
    let (mut tape, archive, path) = finalized_tape();
    let mut b = block(archive.tapes_stored, now);
    let mut e = epoch();
    let args = mine_args(&b, &miner, path);
    process_mine(&mut e, &mut b, &mut miner, &mut tape, &archive, &args, now, &slot_hashes()).unwrap();
    let again = mine_args(&b, &miner, path);
    assert_eq!(
        process_mine(&mut e, &mut b, &mut miner, &mut tape, &archive, &again, now + 10, &slot_hashes()),
        Err(TapeError::DuplicateSubmission)
    );
    assert_eq!(e.duplicates, 0);
    let later = now + 61;
    process_mine(&mut e, &mut b, &mut miner, &mut tape, &archive, &again, later, &slot_hashes()).unwrap();
    assert_eq!(e.duplicates, 1);
    assert_eq!(miner.total_proofs, 2);
}

#[test]
fn unfunded_tape_is_mined_against_empty_segment() {
    let now = 1_000;
    let mut miner = process_register(AUTHORITY, [2u8; 32], &MINER_ADDRESS, &slot_hashes(), now).unwrap();
    let (tape, archive, path) = finalized_tape();
    let mut tape = Tape { balance: 0, ..tape };
    let mut b = block(archive.tapes_stored, now);
    let mut e = epoch();
    let challenge = compute_challenge(&b.challenge, &miner.challenge);
    let pow = solve_pow(&challenge, &[0u8; 128], 1);
    let poa = solve_poa(&miner.authority, &segment_bytes(), path);
    let args = Mine { pow, poa };
    process_mine(&mut e, &mut b, &mut miner, &mut tape, &archive, &args, now, &slot_hashes()).unwrap();
    let full = calculate_reward(&epoch(), &Tape { balance: 1, ..tape }, 1);
    assert_eq!(miner.unclaimed_rewards, full / 2);
}

#[test]
fn tape_lifecycle_errors() {
    let mut tape = create_tape(AUTHORITY, [1u8; 32], 10);
    assert_eq!(tape.state, TapeState::Created.to_u64());
    let mut writer = Writer::new(TAPE_ADDRESS);
    let mut archive = Archive { tapes_stored: 0, segments_stored: 0 };
    assert_eq!(process_tape_finalize(&mut tape, &mut archive), Err(TapeError::UnexpectedState));
    assert_eq!(process_tape_set_header(&mut tape, [1u8; 64]), Err(TapeError::UnexpectedState));
    let data = vec![1u8; 300];
    process_tape_write(&mut tape, &mut writer, &data, 12).unwrap();
    assert_eq!(tape.total_segments, 3);
    assert_eq!(tape.state, TapeState::Writing.to_u64());
    assert_eq!(tape.tail_slot, 12);
    assert_eq!(tape.merkle_root, writer.state.get_root().to_bytes());
    assert_eq!(writer.state.get_leaf_count(), 3);
    process_tape_set_header(&mut tape, [4u8; 64]).unwrap();
    assert_eq!(tape.header, [4u8; 64]);
    assert_eq!(process_tape_finalize(&mut tape, &mut archive), Err(TapeError::InsufficientRent));
    let mut seg2 = [0u8; 128];
    seg2[..44].copy_from_slice(&[1u8; 44]);
    let leaves = vec![
        compute_leaf(0, &[1u8; 128]),
        compute_leaf(1, &[1u8; 128]),
        compute_leaf(2, &seg2),
    ];
    let proof = writer.state.get_proof(&leaves, 2);
    assert!(writer.state.contains_leaf(&proof, leaves[2]));
    assert_eq!(
        process_tape_update(&mut tape, &mut writer, 2, &seg2[..10], &[9u8; 128], &proof, 13),
        Err(TapeError::InvalidInstructionData)
    );
    assert_eq!(
        process_tape_update(&mut tape, &mut writer, 1, &seg2, &[9u8; 128], &proof, 13),
        Err(TapeError::WriteFailed)
    );
    process_tape_update(&mut tape, &mut writer, 2, &seg2, &[9u8; 128], &proof, 13).unwrap();
    assert_eq!(tape.total_segments, 3);
    assert_eq!(tape.tail_slot, 13);
    assert!(writer.state.contains_leaf(&proof, compute_leaf(2, &[9u8; 128])));
    process_tape_subsidize_rent(&mut tape, 3 * BLOCKS_PER_YEAR);
    process_tape_finalize(&mut tape, &mut archive).unwrap();
    assert_eq!(tape.number, 1);
    assert_eq!(archive.segments_stored, 3);
    assert_eq!(process_tape_write(&mut tape, &mut writer, &data, 14), Err(TapeError::UnexpectedState));
}

#[test]
fn tape_write_too_long() {
    let mut tape = Tape { total_segments: 262_143, state: TapeState::Writing.to_u64(), ..create_tape(AUTHORITY, [1u8; 32], 0) };
    let mut writer = Writer::new(TAPE_ADDRESS);
    assert_eq!(process_tape_write(&mut tape, &mut writer, &[0u8; 129], 1), Err(TapeError::TapeTooLong));
    process_tape_write(&mut tape, &mut writer, &[0u8; 128], 1).unwrap();
    assert_eq!(tape.total_segments, 262_144);
}

#[test]
fn rent_rules() {
    let tape = Tape { balance: 50, total_segments: 10, last_rent_block: 4, ..create_tape(AUTHORITY, [0u8; 32], 0) };
    assert_eq!(tape.rent_per_block(), 10);
    assert!(tape.has_minimum_rent());
    assert!(!tape.can_finalize());
    assert_eq!(tape.rent_owed(9), 50);
    assert_eq!(tape.rent_owed(2), 0);
    assert_eq!(Archive { tapes_stored: 1, segments_stored: 12 }.block_reward(), 12);
}

#[test]
fn claim_rewards() {
    let mut miner = process_register(AUTHORITY, [0u8; 32], &MINER_ADDRESS, &slot_hashes(), 0).unwrap();
    miner.unclaimed_rewards = 100;
    assert_eq!(process_claim(&mut miner, 101), Err(TapeError::ClaimTooLarge));
    assert_eq!(process_claim(&mut miner, 40), Ok(40));
    assert_eq!(miner.unclaimed_rewards, 60);
    assert_eq!(process_claim(&mut miner, 0), Ok(60));
    assert_eq!(miner.unclaimed_rewards, 0);
}

#[test]
fn register_needs_slot_hash() {
    assert_eq!(
        process_register(AUTHORITY, [0u8; 32], &MINER_ADDRESS, &[0u8; 10], 0).unwrap_err(),
        TapeError::InvalidAccountData
    );
    let miner = process_register(AUTHORITY, [0u8; 32], &MINER_ADDRESS, &slot_hashes(), 0).unwrap();
    assert_eq!(miner.challenge, compute_next_challenge(&MINER_ADDRESS, &slot_hashes()).unwrap());
    let _ = H::default();
}

#[test]
fn work_against_wrong_segment_is_invalid() {
    let now = 1_000;
    let miner = process_register(AUTHORITY, [2u8; 32], &MINER_ADDRESS, &slot_hashes(), now).unwrap();
    let (tape, archive, path) = finalized_tape();
    let b = block(archive.tapes_stored, now);
    let e = epoch();
    let args = mine_args(&b, &miner, path);
    let challenge = compute_challenge(&b.challenge, &miner.challenge);
    assert_eq!(verify_solution(&e, &tape, &miner.authority, &challenge, &args.pow, &args.poa), Ok(()));
    let unfunded = Tape { balance: 0, ..tape };
    assert_eq!(
        verify_solution(&e, &unfunded, &miner.authority, &challenge, &args.pow, &args.poa),
        Err(TapeError::SolutionInvalid)
    );
    let picky = Epoch { packing_difficulty: 300, ..e };
    assert_eq!(
        verify_solution(&picky, &tape, &miner.authority, &challenge, &args.pow, &args.poa),
        Err(TapeError::SolutionTooEasy)
    );
    let other_miner = [1u8; 32];
    assert_eq!(
        verify_solution(&e, &tape, &other_miner, &challenge, &args.pow, &args.poa),
        Err(TapeError::SolutionInvalid)
    );
}

#[test]
fn genesis_records() {
    let (archive, e, b) = process_initialize(&[4u8; 32], &slot_hashes()).unwrap();
    assert_eq!(archive, Archive { tapes_stored: 0, segments_stored: 0 });
    assert_eq!(e.number, 1);
    assert_eq!(e.mining_difficulty, 1);
    assert_eq!(e.target_participation, 1);
    assert_eq!(e.reward_rate, 10_000_000_000);
    assert_eq!(b.number, 1);
    assert_eq!(b.challenge_set, 1);
    assert_eq!(b.challenge, compute_next_challenge(&[4u8; 32], &slot_hashes()).unwrap());
    assert!(process_initialize(&[4u8; 32], &[0u8; 3]).is_err());
}

#[test]
fn tree_size_and_capacity() {
    assert_eq!(MerkleTree::<18>::get_size(), 1192);
    assert_eq!(MerkleTree::<18>::get_size(), std::mem::size_of::<MerkleTree<18>>());
    let t = MerkleTree::<10>::new(&[b"s"]);
    assert_eq!(t.get_capacity(), 1024);
    assert_eq!(t.get_leaf_count(), 0);
}

#[test]
fn epoch_sequence_stays_within_bounds() {
    let archive = Archive { tapes_stored: 5, segments_stored: 50 };
    let mut e = Epoch { target_participation: 1, mining_difficulty: 1, ..epoch() };
    let mut now: i64 = 0;
    for i in 0..2_000u64 {
        e.progress = 10;
        e.duplicates = if i % 3 == 0 { 1 } else { 0 };
        now += if i % 2 == 0 { 100 } else { 10_000 };
        update_epoch(&mut e, &archive, now);
        assert!(e.mining_difficulty >= 1);
        assert!(e.target_participation >= 1 && e.target_participation <= 100);
    }
}

#[test]
fn access_solution_rebuilds_segment_and_scores_by_blake3() {
    let (_, _, path) = finalized_tape();
    let poa = solve_poa(&AUTHORITY, &segment_bytes(), path);
    let sol = packx::Solution::new(poa.bump, poa.seed, poa.nonce);
    let rebuilt = sol.unpack(&AUTHORITY);
    assert_eq!(rebuilt, segment_bytes());
    for i in 0..128 {
        let mut input = AUTHORITY.to_vec();
        input.extend_from_slice(&[poa.bump, poa.seed[i / 8], poa.nonce[i]]);
        assert_eq!(rebuilt[i], blake3::hash(&input).as_bytes()[0]);
    }
    let mut bytes = vec![poa.bump];
    bytes.extend_from_slice(&poa.seed);
    bytes.extend_from_slice(&poa.nonce);
    let digest = blake3::hash(&bytes);
    let mut zeros = 0u32;
    for &b in digest.as_bytes() {
        zeros += b.leading_zeros();
        if b != 0 {
            break;
        }
    }
    assert_eq!(sol.difficulty(), zeros);
}
