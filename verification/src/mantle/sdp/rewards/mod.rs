//! Rewards of service providers.
pub mod blend;

use vstd::prelude::*;

use crate::types::{Epoch, ProviderId};

verus! {

/// Why an activity message is rejected.
#[derive(Clone, Copy, Debug, PartialEq, Eq)]
pub enum Error {
    /// There is no epoch for which activity can be proven.
    TargetEpochNotSet,
    /// The proof is for an epoch other than the one that activity can be proven for.
    InvalidEpoch { expected: Epoch, got: Epoch },
    /// The provider was not active in the epoch.
    UnknownProvider(ProviderId),
    /// The proof was found invalid.
    InvalidProof,
    /// The proof is valid, but too far from the randomness of the epoch.
    HammingDistanceTooLarge,
    /// The provider has proven its activity already.
    DuplicateActiveMessage { epoch: Epoch, provider_id: ProviderId },
}

} // verus!
