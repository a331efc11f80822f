//! Merkle commitments.
pub mod blake2b;
pub mod dynamic;
pub mod hash_laws;
pub mod hasher;
pub mod laws;
pub mod shape;
pub mod tree;
