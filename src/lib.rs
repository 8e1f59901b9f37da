//! Verified core of a proof-of-access mining protocol: domain-separated
//! hashing, an incremental Merkle tree, recall derivation and the mining,
//! tape and spool state transitions.
pub mod consts;
pub mod hash;
pub mod tree;
pub mod tree_laws;
pub mod state;
pub mod codec;
pub mod challenge;
pub mod tape;
pub mod solution;
pub mod mining;
pub mod spool;
pub mod event;
pub mod instruction;
pub mod utils;
