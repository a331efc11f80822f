//! A ledger whose services work by sessions, which are a fixed number of blocks long.
pub mod block_laws;
pub mod chain_laws;
pub mod channel;
pub mod config;
pub mod cryptarchia;
pub mod error;
pub mod laws;
pub mod leader;
pub mod leader_proof;
pub mod ledger;
pub mod locked_notes;
pub mod mantle;
pub mod membership;
pub mod operation_laws;
pub mod services;
pub mod services_laws;
