//! A persistent map keyed by thirty-two byte identifiers.
use rpds::HashTrieMapSync;
use vstd::prelude::*;

verus! {

/// The trie that stores the entries of a [`TrieMap`].
#[verifier::external_body]
#[verifier::reject_recursive_types(V)]
struct RawTrieMap<V> {
    entries: HashTrieMapSync<[u8; 32], V>,
}

/// A persistent map from thirty-two byte identifiers to values, backed by
/// `rpds::HashTrieMapSync`.
///
/// The view is the map of its entries. Only the functions of this file touch
/// the trie, so the entries it holds and the view change together.
#[verifier::reject_recursive_types(V)]
pub struct TrieMap<V> {
    trie: RawTrieMap<V>,
    contents: Ghost<Map<[u8; 32], V>>,
}

impl<V> View for TrieMap<V> {
    type V = Map<[u8; 32], V>;

    closed spec fn view(&self) -> Map<[u8; 32], V> {
        self.contents@
    }
}

impl<V> TrieMap<V> {
    /// Calls `HashTrieMapSync::new_sync`: the new map has no entries.
    #[verifier::external_body]
    pub(crate) fn new() -> (r: Self)
        ensures
            (r@ == Map::<[u8; 32], V>::empty()),
    {
        TrieMap {
            trie: RawTrieMap { entries: HashTrieMapSync::new_sync() },
            contents: Ghost(Map::empty()),
        }
    }

    /// Calls `HashTrieMap::get`: the value stored under `key`, if there is one.
    #[verifier::external_body]
    pub(crate) fn get(&self, key: &[u8; 32]) -> (r: Option<&V>)
        ensures
            r == (if self@.dom().contains(*key) { Some(&self@[*key]) } else { None }),
    {
        self.trie.entries.get(key)
    }

    /// Calls `HashTrieMap::contains_key`: whether a value is stored under `key`.
    #[verifier::external_body]
    pub(crate) fn contains_key(&self, key: &[u8; 32]) -> (r: bool)
        ensures
            r == self@.dom().contains(*key),
    {
        self.trie.entries.contains_key(key)
    }

    /// Calls `HashTrieMap::insert_mut`: stores `value` under `key`, in place of
    /// what was stored there before, and leaves every other entry as it was.
    #[verifier::external_body]
    pub(crate) fn insert_mut(&mut self, key: [u8; 32], value: V)
        ensures
            final(self)@ == old(self)@.insert(key, value),
    {
        self.trie.entries.insert_mut(key, value)
    }

    /// Calls `HashTrieMap::remove_mut`: drops the entry under `key`, leaves every
    /// other entry as it was, and tells whether there was one to drop.
    #[verifier::external_body]
    pub(crate) fn remove_mut(&mut self, key: &[u8; 32]) -> (r: bool)
        ensures
            final(self)@ == old(self)@.remove(*key),
            r == old(self)@.dom().contains(*key),
    {
        self.trie.entries.remove_mut(key)
    }

    /// Calls `HashTrieMap::size`: the number of entries.
    #[verifier::external_body]
    pub(crate) fn size(&self) -> (r: usize)
        ensures
            r == self@.dom().len(),
    {
        self.trie.entries.size()
    }

    /// Calls `HashTrieMap::keys` and collects what it yields: every key, each of
    /// them once. The order is left open, as it depends on a seeded hasher.
    #[verifier::external_body]
    pub(crate) fn keys(&self) -> (r: Vec<[u8; 32]>)
        ensures
            r@.no_duplicates(),
            r@.to_set() == self@.dom(),
    {
        self.trie.entries.keys().copied().collect()
    }
}

impl<V> TrieMap<V> {
    /// Makes a map without entries.
    pub fn empty() -> (r: Self)
        ensures
            r@ == Map::<[u8; 32], V>::empty(),
    {
        TrieMap::new()
    }

    /// The map with `value` stored under `key`.
    pub fn with(self, key: [u8; 32], value: V) -> (r: Self)
        ensures
            r@ == self@.insert(key, value),
    {
        let mut map: Self = self;
        map.insert_mut(key, value);
        map
    }

    /// The value stored under `key`, if there is one.
    pub fn lookup(&self, key: &[u8; 32]) -> (r: Option<&V>)
        ensures
            r == (if self@.dom().contains(*key) { Some(&self@[*key]) } else { None }),
    {
        self.get(key)
    }

    /// The key of each entry, in no particular order.
    pub fn listed(&self) -> (r: Vec<[u8; 32]>)
        ensures
            r@.no_duplicates(),
            r@.to_set() == self@.dom(),
    {
        self.keys()
    }

    /// The number of entries.
    pub fn count(&self) -> (r: usize)
        ensures
            r == self@.dom().len(),
    {
        self.size()
    }
}

impl<V> Clone for TrieMap<V> {
    /// Calls `HashTrieMap::clone`, which shares the trie: the clone is the same
    /// map.
    #[verifier::external_body]
    fn clone(&self) -> (r: Self)
        ensures
            r == *self,
    {
        TrieMap {
            trie: RawTrieMap { entries: self.trie.entries.clone() },
            contents: Ghost(self.contents@),
        }
    }
}

} // verus!
