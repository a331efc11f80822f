//! Proofs of leadership.
use vstd::prelude::*;

use crate::types::{Fr, Slot, Value};

verus! {

/// What a proof of leadership is verified against.
#[derive(Clone, Copy, Debug, PartialEq, Eq)]
pub struct LeaderPublic {
    /// The root of the tree of outputs that can win.
    pub aged_root: Fr,
    /// The root of the tree of outputs that are not spent.
    pub latest_root: Fr,
    /// The nonce of the epoch.
    pub epoch_nonce: Fr,
    /// The slot that is led.
    pub slot: Slot,
    /// The stake.
    pub total_stake: Value,
}

/// A proof that a slot was won.
pub trait LeaderProof {
    /// Whether the proof is valid for `public_inputs`.
    spec fn accepts(&self, public_inputs: LeaderPublic) -> bool;

    /// What the proof adds to the nonce of the ledger.
    spec fn contribution(&self) -> Fr;

    /// Verifies the proof.
    fn verify(&self, public_inputs: &LeaderPublic) -> (r: bool)
        ensures
            r == self.accepts(*public_inputs),
    ;

    /// What the proof adds to the nonce of the ledger.
    fn entropy(&self) -> (r: Fr)
        ensures
            r == self.contribution(),
    ;
}

} // verus!
