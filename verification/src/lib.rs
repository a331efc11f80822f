//! The state of a blockchain, and how blocks change it.
pub mod byte_laws;
pub mod bytes;
pub mod collections;
pub mod config;
pub mod config_laws;
pub mod cryptarchia;
pub mod error;
pub mod leader_proof;
pub mod ledger;
pub mod mantle;
pub mod merkle;
pub mod mmr;
pub mod session;
pub mod signature;
pub mod types;
