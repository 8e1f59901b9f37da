use tape_core::instruction::DataLen;
use tape_core::state::{Archive, Block, Epoch, Mine, Miner, Tape, TapeError};

#[test]
fn archive_bytes_round_trip() {
    let a = Archive { tapes_stored: 3, segments_stored: 300 };
    let bytes = a.to_bytes();
    assert_eq!(bytes.len(), 16);
    assert_eq!(&bytes[..8], &3u64.to_le_bytes());
    assert_eq!(Archive::try_from_bytes(&bytes), Ok(a));
    assert_eq!(Archive::try_from_bytes(&bytes[..15]), Err(TapeError::InvalidAccountData));
}

#[test]
fn epoch_bytes_round_trip() {
    let e = Epoch {
        number: 1,
        progress: 2,
        mining_difficulty: 3,
        packing_difficulty: 4,
        target_participation: 5,
        reward_rate: 6,
        duplicates: 7,
        last_epoch_at: -8,
    };
    let bytes = e.to_bytes();
    assert_eq!(bytes.len(), 64);
    assert_eq!(&bytes[56..], &(-8i64).to_le_bytes());
    assert_eq!(Epoch::try_from_bytes(&bytes), Ok(e));
    assert_eq!(Epoch::try_from_bytes(&[0u8; 63]), Err(TapeError::InvalidAccountData));
}

#[test]
fn block_bytes_round_trip() {
    let b = Block { number: 9, progress: 1, challenge: [4u8; 32], challenge_set: 2, last_proof_at: 100, last_block_at: 90 };
    let bytes = b.to_bytes();
    assert_eq!(bytes.len(), 72);
    assert_eq!(&bytes[16..48], &[4u8; 32]);
    assert_eq!(Block::try_from_bytes(&bytes), Ok(b));
    assert_eq!(Block::try_from_bytes(&bytes[..71]), Err(TapeError::InvalidAccountData));
}

#[test]
fn mine_submission_bytes() {
    let mut data = vec![0u8; Mine::LEN];
    data[0] = 1;
    data[16] = 2;
    data[24] = 3;
    data[25] = 4;
    data[41] = 5;
    data[169] = 6;
    data[169 + 32 * 17] = 7;
    let m = Mine::try_from_bytes(&data).unwrap();
    assert_eq!(m.pow.digest[0], 1);
    assert_eq!(m.pow.nonce[0], 2);
    assert_eq!(m.poa.bump, 3);
    assert_eq!(m.poa.seed[0], 4);
    assert_eq!(m.poa.nonce[0], 5);
    assert_eq!(m.poa.path.0[0][0], 6);
    assert_eq!(m.poa.path.0[17][0], 7);
    assert_eq!(Mine::try_from_bytes(&data[..744]).unwrap_err(), TapeError::InvalidInstructionData);
}

#[test]
fn record_lengths() {
    assert_eq!(<Archive as DataLen>::LEN, Archive { tapes_stored: 0, segments_stored: 0 }.to_bytes().len());
    assert_eq!(<Epoch as DataLen>::LEN, 64);
    assert_eq!(<Block as DataLen>::LEN, 72);
    assert_eq!(<Tape as DataLen>::LEN, 248);
    assert_eq!(<Miner as DataLen>::LEN, 176);
    assert_eq!(<Mine as DataLen>::LEN, 745);
}
