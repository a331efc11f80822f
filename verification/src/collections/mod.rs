//! Persistent collections with structural sharing.
pub mod stack;
pub mod tree_map;
pub mod trie_map;
pub mod trie_set;
