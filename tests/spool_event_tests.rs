use tape_core::event::{EventError, FinalizeEvent, UpdateEvent, WriteEvent};
use tape_core::mining::process_register;
use tape_core::spool::{create_spool, process_spool_commit, process_spool_pack, process_spool_unpack};
use tape_core::state::{Archive, TapeError, TapeState, Writer};
use tape_core::tape::{compute_leaf, create_tape, process_tape_finalize, process_tape_subsidize_rent, process_tape_write};
use tape_core::utils::{check_condition, from_name, padded_array, to_name};
use tape_core::tree::TreeError;

#[test]
fn spool_pack_unpack_commit() {
    let authority = [7u8; 32];
    let mut spool = create_spool(1, authority, [4u8; 32], 100);
    assert_eq!(spool.total_tapes, 0);
    let mut tape = create_tape(authority, [1u8; 32], 0);
    let value = [8u8; 32];
    assert_eq!(process_spool_pack(&mut spool, &tape, &value), Err(TapeError::UnexpectedState));
    let mut writer = Writer::new([5u8; 32]);
    let segment = [3u8; 128];
    process_tape_write(&mut tape, &mut writer, &segment, 1).unwrap();
    process_tape_subsidize_rent(&mut tape, u64::MAX);
    let mut archive = Archive { tapes_stored: 0, segments_stored: 0 };
    process_tape_finalize(&mut tape, &mut archive).unwrap();
    process_spool_pack(&mut spool, &tape, &tape.merkle_root).unwrap();
    assert_eq!(spool.total_tapes, 1);
    assert_eq!(spool.state.get_leaf_count(), 1);

    let leaves = vec![compute_leaf(tape.number, &tape.merkle_root)];
    let proof = spool.state.get_proof(&leaves, 0);
    assert_eq!(
        process_spool_unpack(&mut spool, tape.number, tape.merkle_root, &proof[..5]),
        Err(TapeError::InvalidInstructionData)
    );
    assert_eq!(
        process_spool_unpack(&mut spool, tape.number + 1, tape.merkle_root, &proof),
        Err(TapeError::SpoolUnpackFailed)
    );
    process_spool_unpack(&mut spool, tape.number, tape.merkle_root, &proof).unwrap();
    assert_eq!(spool.contains, tape.merkle_root);

    let mut miner = process_register(authority, [0u8; 32], &[9u8; 32], &[1u8; 40], 0).unwrap();
    let committed = leaves[0].to_bytes();
    assert_eq!(
        process_spool_commit(&mut miner, &spool, [0u8; 32], &proof),
        Err(TapeError::SpoolCommitFailed)
    );
    assert_eq!(
        process_spool_commit(&mut miner, &spool, committed, &proof[..3]),
        Err(TapeError::InvalidInstructionData)
    );
    process_spool_commit(&mut miner, &spool, committed, &proof).unwrap();
    assert_eq!(miner.commitment, committed);
}

#[test]
fn spool_refuses_past_cap() {
    let authority = [7u8; 32];
    let mut spool = create_spool(1, authority, [4u8; 32], 0);
    spool.total_tapes = 1000;
    let tape = tape_core::state::Tape { number: 3, state: TapeState::Finalized.to_u64(), ..create_tape(authority, [0u8; 32], 0) };
    assert_eq!(process_spool_pack(&mut spool, &tape, &[0u8; 32]), Err(TapeError::SpoolTooManyTapes));
}

#[test]
fn write_event_bytes_round_trip() {
    let e = WriteEvent { num_added: 2, num_total: 9, prev_slot: 77, address: [6u8; 32] };
    let bytes = e.to_bytes();
    assert_eq!(WriteEvent::size_of(), 64);
    assert_eq!(bytes[0], 1);
    assert_eq!(&bytes[8..16], &2u64.to_le_bytes());
    assert_eq!(WriteEvent::try_from_bytes(&bytes), Ok(e));
    assert_eq!(WriteEvent::try_from_bytes(&bytes[..5]), Err(EventError::TooShortForDiscriminator));
    assert_eq!(WriteEvent::try_from_bytes(&bytes[..20]), Err(EventError::TooShortForStruct));
    let mut wrong = bytes;
    wrong[0] = 2;
    assert_eq!(WriteEvent::try_from_bytes(&wrong), Err(EventError::InvalidDiscriminator));
    e.log();
}

#[test]
fn update_and_finalize_event_bytes() {
    let u = UpdateEvent { segment_number: 5, prev_slot: 1, address: [2u8; 32] };
    let ub = u.to_bytes();
    assert_eq!(UpdateEvent::size_of(), 56);
    assert_eq!(ub[0], 2);
    assert_eq!(UpdateEvent::try_from_bytes(&ub), Ok(u));
    let f = FinalizeEvent { tape: 4, address: [3u8; 32] };
    let fb = f.to_bytes();
    assert_eq!(FinalizeEvent::size_of(), 48);
    assert_eq!(fb[0], 3);
    assert_eq!(&fb[16..48], &[3u8; 32]);
    assert_eq!(FinalizeEvent::try_from_bytes(&fb), Ok(f));
    assert_eq!(FinalizeEvent::try_from_bytes(&ub), Err(EventError::InvalidDiscriminator));
}

#[test]
fn names_and_padding() {
    let name = to_name(b"tape-one");
    assert_eq!(&name[..8], b"tape-one");
    assert_eq!(name[8], 0);
    assert_eq!(from_name(&name), "tape-one");
    let p: [u8; 4] = padded_array::<4>(b"abcdef");
    assert_eq!(&p, b"abcd");
    let q: [u8; 4] = padded_array::<4>(b"ab");
    assert_eq!(q, [b'a', b'b', 0, 0]);
    assert_eq!(check_condition(true, TreeError::TreeFull), Ok(()));
    assert_eq!(check_condition(false, TreeError::InvalidProof), Err(TreeError::InvalidProof));
}
