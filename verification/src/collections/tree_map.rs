//! A persistent map keyed by thirty-two byte identifiers, in their order.
use rpds::RedBlackTreeMapSync;
use vstd::prelude::*;

use crate::bytes;

verus! {

/// The tree that stores the entries of a [`TreeMap`].
#[verifier::external_body]
#[verifier::reject_recursive_types(V)]
struct RawTreeMap<V> {
    entries: RedBlackTreeMapSync<[u8; 32], V>,
}

/// A persistent map from thirty-two byte identifiers to values, backed by
/// `rpds::RedBlackTreeMapSync`.
///
/// The view is the map of its entries. Only the functions of this file touch the
/// tree, so the entries it holds and the view change together.
#[verifier::reject_recursive_types(V)]
pub struct TreeMap<V> {
    tree: RawTreeMap<V>,
    contents: Ghost<Map<[u8; 32], V>>,
}

impl<V> View for TreeMap<V> {
    type V = Map<[u8; 32], V>;

    closed spec fn view(&self) -> Map<[u8; 32], V> {
        self.contents@
    }
}

impl<V> TreeMap<V> {
    /// Calls `RedBlackTreeMapSync::new_sync`: the new map has no entries.
    #[verifier::external_body]
    pub(crate) fn new() -> (r: Self)
        ensures
            (r@ == Map::<[u8; 32], V>::empty()),
    {
        TreeMap {
            tree: RawTreeMap { entries: RedBlackTreeMapSync::new_sync() },
            contents: Ghost(Map::empty()),
        }
    }

    /// Calls `RedBlackTreeMap::get`: the value stored under `key`, if there is one.
    #[verifier::external_body]
    pub(crate) fn get(&self, key: &[u8; 32]) -> (r: Option<&V>)
        ensures
            r == (if self@.dom().contains(*key) { Some(&self@[*key]) } else { None }),
    {
        self.tree.entries.get(key)
    }

    /// Calls `RedBlackTreeMap::contains_key`: whether a value is stored under `key`.
    #[verifier::external_body]
    pub(crate) fn contains_key(&self, key: &[u8; 32]) -> (r: bool)
        ensures
            r == self@.dom().contains(*key),
    {
        self.tree.entries.contains_key(key)
    }

    /// Calls `RedBlackTreeMap::insert_mut`: stores `value` under `key`, in place of
    /// what was stored there before, and leaves every other entry as it was.
    #[verifier::external_body]
    pub(crate) fn insert_mut(&mut self, key: [u8; 32], value: V)
        ensures
            final(self)@ == old(self)@.insert(key, value),
    {
        self.tree.entries.insert_mut(key, value)
    }

    /// Calls `RedBlackTreeMap::remove_mut`: drops the entry under `key`, leaves every
    /// other entry as it was, and tells whether there was one to drop.
    #[verifier::external_body]
    pub(crate) fn remove_mut(&mut self, key: &[u8; 32]) -> (r: bool)
        ensures
            final(self)@ == old(self)@.remove(*key),
            r == old(self)@.dom().contains(*key),
    {
        self.tree.entries.remove_mut(key)
    }

    /// Calls `RedBlackTreeMap::size`: the number of entries.
    #[verifier::external_body]
    pub(crate) fn size(&self) -> (r: usize)
        ensures
            r == self@.dom().len(),
    {
        self.tree.entries.size()
    }

    /// Calls `RedBlackTreeMap::keys` and collects what it yields: every key, in
    /// lexicographic order of its bytes.
    #[verifier::external_body]
    pub(crate) fn keys(&self) -> (r: Vec<[u8; 32]>)
        ensures
            bytes::ascending(r@),
            r@.to_set() == self@.dom(),
    {
        self.tree.entries.keys().copied().collect()
    }
}

impl<V> TreeMap<V> {
    /// Makes a map without entries.
    pub fn empty() -> (r: Self)
        ensures
            r@ == Map::<[u8; 32], V>::empty(),
    {
        TreeMap::new()
    }

    /// The map with `value` stored under `key`.
    pub fn with(self, key: [u8; 32], value: V) -> (r: Self)
        ensures
            r@ == self@.insert(key, value),
    {
        let mut map: Self = self;
        map.insert_mut(key, value);
        map
    }

    /// The value stored under `key`, if there is one.
    pub fn lookup(&self, key: &[u8; 32]) -> (r: Option<&V>)
        ensures
            r == (if self@.dom().contains(*key) { Some(&self@[*key]) } else { None }),
    {
        self.get(key)
    }

    /// The number of entries.
    pub fn count(&self) -> (r: usize)
        ensures
            r == self@.dom().len(),
    {
        self.size()
    }
}

impl<V> Clone for TreeMap<V> {
    /// Calls `RedBlackTreeMap::clone`, which shares the tree: the clone is the same
    /// map.
    #[verifier::external_body]
    fn clone(&self) -> (r: Self)
        ensures
            r == *self,
    {
        TreeMap {
            tree: RawTreeMap { entries: self.tree.entries.clone() },
            contents: Ghost(self.contents@),
        }
    }
}

} // verus!
