//! A persistent set of thirty-two byte identifiers.
use rpds::HashTrieSetSync;
use vstd::prelude::*;

verus! {

/// The trie that stores the members of a [`TrieSet`].
#[verifier::external_body]
struct RawTrieSet {
    members: HashTrieSetSync<[u8; 32]>,
}

/// A persistent set of thirty-two byte identifiers, backed by
/// `rpds::HashTrieSetSync`.
///
/// The view is the set of its members. Only the functions of this file touch
/// the trie, so the members it holds and the view change together.
pub struct TrieSet {
    trie: RawTrieSet,
    contents: Ghost<Set<[u8; 32]>>,
}

impl View for TrieSet {
    type V = Set<[u8; 32]>;

    closed spec fn view(&self) -> Set<[u8; 32]> {
        self.contents@
    }
}

impl TrieSet {
    /// Calls `HashTrieSetSync::new_sync`: the new set has no members.
    #[verifier::external_body]
    pub(crate) fn new() -> (r: Self)
        ensures
            r@ == Set::<[u8; 32]>::empty(),
    {
        TrieSet {
            trie: RawTrieSet { members: HashTrieSetSync::new_sync() },
            contents: Ghost(Set::empty()),
        }
    }

    /// Calls `HashTrieSet::contains`: whether `member` is in the set.
    #[verifier::external_body]
    pub(crate) fn contains(&self, member: &[u8; 32]) -> (r: bool)
        ensures
            r == self@.contains(*member),
    {
        self.trie.members.contains(member)
    }

    /// Calls `HashTrieSet::insert_mut`: adds `member` and keeps every other
    /// member.
    #[verifier::external_body]
    pub(crate) fn insert_mut(&mut self, member: [u8; 32])
        ensures
            final(self)@ == old(self)@.insert(member),
    {
        self.trie.members.insert_mut(member)
    }

    /// Calls `HashTrieSet::remove_mut`: drops `member`, keeps every other member,
    /// and tells whether there was one to drop.
    #[verifier::external_body]
    pub(crate) fn remove_mut(&mut self, member: &[u8; 32]) -> (r: bool)
        ensures
            final(self)@ == old(self)@.remove(*member),
            r == old(self)@.contains(*member),
    {
        self.trie.members.remove_mut(member)
    }

    /// Calls `HashTrieSet::size`: the number of members.
    #[verifier::external_body]
    pub(crate) fn size(&self) -> (r: usize)
        ensures
            r == self@.len(),
    {
        self.trie.members.size()
    }
}

impl TrieSet {
    /// Makes a set without members.
    pub fn empty() -> (r: Self)
        ensures
            r@ == Set::<[u8; 32]>::empty(),
    {
        TrieSet::new()
    }

    /// The set with `member` in it.
    pub fn with(self, member: [u8; 32]) -> (r: Self)
        ensures
            r@ == self@.insert(member),
    {
        let mut set: Self = self;
        set.insert_mut(member);
        set
    }

    /// Whether `member` is in the set.
    pub fn has(&self, member: &[u8; 32]) -> (r: bool)
        ensures
            r == self@.contains(*member),
    {
        self.contains(member)
    }

    /// The number of members.
    pub fn count(&self) -> (r: usize)
        ensures
            r == self@.len(),
    {
        self.size()
    }
}

impl Clone for TrieSet {
    /// Calls `HashTrieSet::clone`, which shares the trie: the clone is the same
    /// set.
    #[verifier::external_body]
    fn clone(&self) -> (r: Self)
        ensures
            r == *self,
    {
        TrieSet {
            trie: RawTrieSet { members: self.trie.members.clone() },
            contents: Ghost(self.contents@),
        }
    }
}

} // verus!
