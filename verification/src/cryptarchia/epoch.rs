//! What is fixed for an epoch.
use vstd::prelude::*;

use crate::collections::tree_map::TreeMap;
use crate::merkle::dynamic::MerklePath;
use crate::merkle::tree::{LeafExtractor, MerkleTree};
use crate::types::{Declaration, Epoch, Fr, ServiceType, Utxo, Value};

verus! {

/// The outputs that are not spent, committed to by a Merkle tree.
pub type UtxoTree<U> = MerkleTree<Utxo, U>;

/// Declarations by service. A service without declarations may be left out.
pub struct Declarations {
    pub blend_network: Option<TreeMap<Declaration>>,
}

impl Declarations {
    /// The declarations for the Blend network.
    pub open spec fn blend(&self) -> Map<[u8; 32], Declaration> {
        match self.blend_network {
            Some(declarations) => declarations@,
            None => Map::empty(),
        }
    }

    /// Makes declarations without services.
    pub fn empty() -> (r: Self)
        ensures
            r.blend_network is None,
    {
        Declarations { blend_network: None }
    }

    /// The declarations for a service, unless they are left out.
    pub fn for_service(&self, service_type: &ServiceType) -> (r: Option<&TreeMap<Declaration>>)
        ensures
            r == (match *service_type {
                ServiceType::BlendNetwork => match self.blend_network {
                    Some(declarations) => Some(&declarations),
                    None => None,
                },
                ServiceType::DataAvailability => None,
            }),
    {
        match service_type {
            ServiceType::BlendNetwork => self.blend_network.as_ref(),
            ServiceType::DataAvailability => None,
        }
    }
}

impl Clone for Declarations {
    fn clone(&self) -> (r: Self)
        ensures
            r == *self,
    {
        Declarations {
            blend_network: match &self.blend_network {
                Some(declarations) => Some(declarations.clone()),
                None => None,
            },
        }
    }
}

/// What is fixed for an epoch.
#[verifier::reject_recursive_types(U)]
pub struct EpochState<U: LeafExtractor<Utxo>> {
    /// The epoch.
    pub epoch: Epoch,
    /// The nonce of the ledger when most of the epoch before was over.
    pub nonce: Fr,
    /// The outputs that were not spent at the start of the epoch before.
    pub utxos: UtxoTree<U>,
    /// The stake that is estimated to take part.
    pub total_stake: Value,
    /// The first value of the lottery, which follows from the stake.
    pub lottery_0: Fr,
    /// The second value of the lottery, which follows from the stake.
    pub lottery_1: Fr,
    /// The declarations that are active in the epoch, taken together with `utxos`.
    pub active_declarations: Declarations,
}

impl<U: LeafExtractor<Utxo>> EpochState<U> {
    /// The epoch.
    pub fn epoch(&self) -> (r: Epoch)
        ensures
            r == self.epoch,
    {
        self.epoch
    }

    /// The nonce.
    pub fn nonce(&self) -> (r: &Fr)
        ensures
            *r == self.nonce,
    {
        &self.nonce
    }

    /// The stake that is estimated to take part.
    pub fn total_stake(&self) -> (r: Value)
        ensures
            r == self.total_stake,
    {
        self.total_stake
    }

    /// The values of the lottery.
    pub fn lottery_values(&self) -> (r: (Fr, Fr))
        ensures
            r == (self.lottery_0, self.lottery_1),
    {
        (self.lottery_0, self.lottery_1)
    }

    /// The root of the tree of outputs.
    pub fn utxo_merkle_root(&self) -> (r: Fr)
        requires
            self.utxos.well_formed(),
        ensures
            r == self.utxos.root_of(),
    {
        self.utxos.root()
    }

    /// The siblings on the way from an output to the root of the tree of outputs, from the
    /// leaf upward, unless there is no such output.
    pub fn utxo_merkle_path(&self, utxo: &Utxo) -> (r: Option<MerklePath>)
        requires
            self.utxos.well_formed(),
        ensures
            r is Some <==> self.utxos.entries().dom().contains(utxo.id),
            r matches Some(path) ==> crate::merkle::dynamic::is_path::<U::Hasher>(
                path@,
                crate::merkle::dynamic::slot_leaves(self.utxos.slots()),
                self.utxos.entries()[utxo.id].1 as int,
                crate::merkle::dynamic::TREE_HEIGHT as nat,
            ),
    {
        self.utxos.path(&utxo.id)
    }
}

impl<U: LeafExtractor<Utxo>> Clone for EpochState<U> {
    fn clone(&self) -> (r: Self)
        ensures
            r == *self,
    {
        EpochState {
            epoch: self.epoch,
            nonce: self.nonce,
            utxos: self.utxos.clone(),
            total_stake: self.total_stake,
            lottery_0: self.lottery_0,
            lottery_1: self.lottery_1,
            active_declarations: self.active_declarations.clone(),
        }
    }
}

} // verus!
