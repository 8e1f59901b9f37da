//! The fixed-size inputs of the protocol's actions.
use vstd::prelude::*;
use crate::consts::{NAME_LEN, TAPE_PROOF_LEN};
use crate::state::{AccountType, Archive, Block, Epoch, Mine, Miner, Spool, Tape, Treasury, Writer};

verus! {

/// Creates a tape with a name.
#[derive(Clone, Copy, PartialEq, Eq, Debug)]
pub struct Create {
    pub name: [u8; NAME_LEN],
}

/// Writes the bytes that follow to a tape.
#[derive(Clone, Copy, PartialEq, Eq, Debug, Structural)]
pub struct Write {}

/// Finalizes a tape.
#[derive(Clone, Copy, PartialEq, Eq, Debug, Structural)]
pub struct Finalize {}

/// Adds rent to a tape.
#[derive(Clone, Copy, PartialEq, Eq, Debug)]
pub struct Subsidize {
    pub amount: [u8; 8],
}

/// Sends tokens from the treasury.
#[derive(Clone, Copy, PartialEq, Eq, Debug)]
pub struct AirdropIx {
    pub amount: [u8; 8],
}

/// Registers a miner under a name.
#[derive(Clone, Copy, PartialEq, Eq, Debug)]
pub struct RegisterMinerIxData {
    pub name: [u8; 32],
}

/// Packs a tape into a spool.
#[derive(Clone, Copy, PartialEq, Eq, Debug)]
pub struct Pack {
    pub value: [u8; 32],
}

/// Creates a spool.
#[derive(Clone, Copy, PartialEq, Eq, Debug)]
pub struct CreateSpoolIxData {
    pub number: [u8; 8],
}

/// Commits a value the spool publishes.
#[derive(Clone, Copy, PartialEq, Eq, Debug)]
pub struct SpoolCommitIxData {
    pub proof: [[u8; 32]; TAPE_PROOF_LEN],
    pub value: [u8; 32],
}

/// Publishes a packed tape's value.
#[derive(Clone, Copy, PartialEq, Eq, Debug)]
pub struct SpoolUnpackIxData {
    pub index: [u8; 8],
    pub proof: [[u8; 32]; TAPE_PROOF_LEN],
    pub value: [u8; 32],
}

/// The number of bytes a record or an input takes.
pub trait DataLen {
    const LEN: usize;
}

impl DataLen for Archive {
    const LEN: usize = 16;
}

impl DataLen for Epoch {
    const LEN: usize = 64;
}

impl DataLen for Block {
    const LEN: usize = 72;
}

impl DataLen for Tape {
    const LEN: usize = 248;
}

impl DataLen for Miner {
    const LEN: usize = 176;
}

impl DataLen for Mine {
    const LEN: usize = 745;
}

impl DataLen for Create {
    const LEN: usize = 32;
}

impl DataLen for Subsidize {
    const LEN: usize = 8;
}

impl DataLen for AirdropIx {
    const LEN: usize = 8;
}

impl DataLen for RegisterMinerIxData {
    const LEN: usize = 32;
}

impl DataLen for Pack {
    const LEN: usize = 32;
}

impl DataLen for CreateSpoolIxData {
    const LEN: usize = 8;
}

impl DataLen for SpoolCommitIxData {
    const LEN: usize = 352;
}

impl DataLen for SpoolUnpackIxData {
    const LEN: usize = 360;
}

/// The discriminator byte of a record kind.
pub trait AccountDiscriminator {
    fn discriminator() -> u8;
}

impl AccountDiscriminator for Archive {
    fn discriminator() -> u8 {
        AccountType::Archive.to_u8()
    }
}

impl AccountDiscriminator for Epoch {
    fn discriminator() -> u8 {
        AccountType::Epoch.to_u8()
    }
}

impl AccountDiscriminator for Block {
    fn discriminator() -> u8 {
        AccountType::Block.to_u8()
    }
}

impl AccountDiscriminator for Miner {
    fn discriminator() -> u8 {
        AccountType::Miner.to_u8()
    }
}

impl AccountDiscriminator for Tape {
    fn discriminator() -> u8 {
        AccountType::Tape.to_u8()
    }
}

impl AccountDiscriminator for Spool {
    fn discriminator() -> u8 {
        AccountType::Spool.to_u8()
    }
}

impl AccountDiscriminator for Writer {
    fn discriminator() -> u8 {
        AccountType::Writer.to_u8()
    }
}

impl AccountDiscriminator for Treasury {
    fn discriminator() -> u8 {
        AccountType::Treasury.to_u8()
    }
}

} // verus!
