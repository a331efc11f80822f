//! Merkle hashing with BLAKE2b.
use blake2::digest::consts::U32;
use blake2::Digest;
use vstd::prelude::*;

use crate::merkle::hasher::{NodeHash, MerkleHasher};
use crate::merkle::tree::{LeafExtractor, MerkleTree};

verus! {

/// The 256-bit BLAKE2b digest of `data`.
pub uninterp spec fn blake2b_256(data: Seq<u8>) -> [u8; 32];

/// Calls `<blake2::Blake2b<U32> as blake2::Digest>::digest`: the unkeyed BLAKE2b
/// digest of `data` with an output of thirty-two bytes. Of the digest only that
/// it is a function of the bytes is claimed.
#[verifier::external_body]
fn blake2b_digest(data: &[u8]) -> (r: [u8; 32])
    ensures
        r == blake2b_256(data@),
{
    blake2::Blake2b::<U32>::digest(data).into()
}

/// Computes the 256-bit BLAKE2b digest of `data`.
pub fn blake2b(data: &[u8]) -> (r: NodeHash)
    ensures
        r == blake2b_256(data@),
{
    blake2b_digest(data)
}

/// Hashes the inner nodes of a Merkle tree with BLAKE2b: a parent is the digest
/// of its two children, one after the other.
pub struct Blake2bMerkleHasher;

impl MerkleHasher for Blake2bMerkleHasher {
    open spec fn parent(left: NodeHash, right: NodeHash) -> NodeHash {
        blake2b_256(left@ + right@)
    }

    fn compress(left: &NodeHash, right: &NodeHash) -> (r: NodeHash) {
        let mut children: Vec<u8> = Vec::with_capacity(64);
        children.extend_from_slice(left.as_slice());
        children.extend_from_slice(right.as_slice());
        assert(children@ =~= left@ + right@);
        blake2b(children.as_slice())
    }
}

/// The leaf that commits to an element of a [`Blake2bTree`].
///
/// It binds the identifier of the element together with its state, so that it is
/// meaningful apart from the position it is at, and so that a change of the element
/// changes the root.
pub trait LeafHash {
    /// The leaf of this element under `key`.
    spec fn leaf_hash_of(&self, key: [u8; 32]) -> NodeHash;

    /// Computes the leaf of this element under `key`.
    fn leaf_hash(&self, key: &[u8; 32]) -> (r: NodeHash)
        ensures
            r == self.leaf_hash_of(*key),
    ;
}

/// Commits to an element by its [`LeafHash`], with inner nodes hashed by BLAKE2b.
pub struct Blake2bLeaf;

impl<Item: LeafHash> LeafExtractor<Item> for Blake2bLeaf {
    type Hasher = Blake2bMerkleHasher;

    open spec fn leaf_of(key: [u8; 32], item: Item) -> NodeHash {
        item.leaf_hash_of(key)
    }

    fn leaf(key: &[u8; 32], item: &Item) -> (r: NodeHash) {
        item.leaf_hash(key)
    }
}

/// A [`MerkleTree`] that commits to its items with BLAKE2b.
pub type Blake2bTree<Item> = MerkleTree<Item, Blake2bLeaf>;

} // verus!
