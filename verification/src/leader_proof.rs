//! Proofs of leadership.
use vstd::prelude::*;

use crate::types::{Fr, Slot, VoucherCm};

verus! {

/// What a proof of leadership is verified against.
#[derive(Clone, Copy, Debug, PartialEq, Eq)]
pub struct LeaderPublic {
    /// The root of the tree of outputs that can win.
    pub aged_root: Fr,
    /// The root of the tree of outputs that are not spent.
    pub latest_root: Fr,
    /// The nonce of the epoch.
    pub epoch_nonce: Fr,
    /// The slot that is led.
    pub slot: Slot,
    /// The first value of the lottery.
    pub lottery_0: Fr,
    /// The second value of the lottery.
    pub lottery_1: Fr,
}

/// A proof that a slot was won.
pub trait LeaderProof {
    /// Whether the proof is valid for `public_inputs`.
    spec fn accepts(&self, public_inputs: LeaderPublic) -> bool;

    /// What the proof adds to the nonce of the ledger.
    spec fn contribution(&self) -> Fr;

    /// The voucher that the leader can claim a reward with.
    spec fn voucher(&self) -> VoucherCm;

    /// Verifies the proof.
    fn verify(&self, public_inputs: &LeaderPublic) -> (r: bool)
        ensures
            r == self.accepts(*public_inputs),
    ;

    /// What the proof adds to the nonce of the ledger.
    fn entropy(&self) -> (r: Fr)
        ensures
            r == self.contribution(),
    ;

    /// The voucher that the leader can claim a reward with.
    fn voucher_cm(&self) -> (r: VoucherCm)
        ensures
            r == self.voucher(),
    ;
}

} // verus!
