//! The kitties pallet: accounts create kitties with random dna and hand them on to friends.
pub mod types;
pub mod encoding;
pub mod storage;
pub mod pallet;
pub mod genesis;
pub mod laws;
