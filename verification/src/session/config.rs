//! Parameters of the ledger.
use vstd::prelude::*;

use crate::config::EpochConfig;
use crate::mantle::locked_notes::MinStake;
use crate::session::membership::ServiceParams;

verus! {

/// Parameters of the ledger.
#[derive(Clone, Copy, Debug, PartialEq, Eq, Structural)]
pub struct Config {
    pub epoch_config: EpochConfig,
    pub service_params: ServiceParams,
    pub min_stake: MinStake,
}

} // verus!
