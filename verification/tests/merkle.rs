use ledger::merkle::blake2b::{Blake2bMerkleHasher, Blake2bTree, LeafHash};
use ledger::merkle::dynamic::MerkleNode;
use ledger::merkle::hasher::{MerkleHasher, NodeHash};
use ledger::merkle::tree::{Error, MerkleTree};

#[derive(Debug, Copy, Clone, Eq, PartialEq)]
struct TestLeaf([u8; 32]);

impl TestLeaf {
    fn from_usize(n: usize) -> Self {
        let mut bytes = [0u8; 32];
        bytes[..8].copy_from_slice(&(n as u64).to_le_bytes());
        Self(bytes)
    }
}

impl LeafHash for TestLeaf {
    fn leaf_hash_of(&self, _key: [u8; 32]) -> NodeHash {
        self.0
    }

    fn leaf_hash(&self, _key: &[u8; 32]) -> NodeHash {
        self.0
    }
}

type Tree = Blake2bTree<TestLeaf>;

fn leaves() -> Vec<TestLeaf> {
    (0..4).map(|i| TestLeaf([17 + 31 * i as u8; 32])).collect()
}

#[test]
fn lib_test_empty_tree() {
    let tree: Tree = MerkleTree::new();
    assert_eq!(tree.size(), 0);
}

#[test]
fn test_single_insert() {
    let tree: Tree = MerkleTree::new();
    let item = leaves()[0];
    let (tree_with_item, _pos) = tree.insert(item.0, item);

    assert_eq!(tree_with_item.size(), 1);
    assert_eq!(tree.size(), 0);
    assert_ne!(tree_with_item.root(), tree.root());
}

#[test]
fn test_multiple_inserts() {
    let tree: Tree = MerkleTree::new();
    let items = &leaves()[..3];
    let mut current_tree = tree;

    for (i, item) in items.iter().enumerate() {
        let (new_tree, pos) = current_tree.insert(item.0, *item);
        current_tree = new_tree;
        assert_eq!(current_tree.size(), i + 1);
        assert_eq!(pos, i);
    }

    assert_eq!(current_tree.size(), 3);
}

#[test]
fn test_remove_existing_item() {
    let tree: Tree = MerkleTree::new();
    let item = leaves()[0];
    let (tree_with_item, _) = tree.insert(item.0, item);

    let result = tree_with_item.remove(&item.0);
    assert!(result.is_ok());

    let (tree_after_removal, removed_item) = result.unwrap();
    assert_eq!(tree_after_removal.size(), 0);
    assert_eq!(removed_item, item);
}

#[test]
fn test_remove_non_existing_item() {
    let tree: Tree = MerkleTree::new();
    let item = leaves()[0];
    let (tree_with_item, _) = tree.insert(item.0, item);

    let result = tree_with_item.remove(&leaves()[1].0);
    assert!(matches!(result, Err(Error::NotFound)));
}

#[test]
fn test_remove_from_empty_tree() {
    let tree: Tree = MerkleTree::new();
    let result = tree.remove(&leaves()[0].0);
    assert!(matches!(result, Err(Error::NotFound)));
}

#[test]
fn test_structural_sharing() {
    let tree: Tree = MerkleTree::new();
    let item1 = leaves()[0];
    let item2 = leaves()[1];

    let (tree1, _) = tree.insert(item1.0, item1);
    let (tree2, _) = tree1.insert(item2.0, item2);

    assert_eq!(tree.size(), 0);
    assert_eq!(tree1.size(), 1);
    assert_eq!(tree2.size(), 2);
}

#[test]
fn test_root_changes_with_operations() {
    let tree: Tree = MerkleTree::new();
    let empty_root = tree.root();

    let item = leaves()[0];
    let (tree_with_item, _) = tree.insert(item.0, item);
    let root_with_item = tree_with_item.root();
    assert_ne!(empty_root, root_with_item);

    let (tree_after_removal, _) = tree_with_item.remove(&item.0).unwrap();
    assert_eq!(empty_root, tree_after_removal.root());
}

#[test]
fn test_deterministic_root() {
    let mut current_tree1: Tree = MerkleTree::new();
    let mut current_tree2: Tree = MerkleTree::new();

    for item in &leaves()[..3] {
        let (new_tree1, _) = current_tree1.insert(item.0, *item);
        let (new_tree2, _) = current_tree2.insert(item.0, *item);
        current_tree1 = new_tree1;
        current_tree2 = new_tree2;
    }

    assert_eq!(current_tree1.root(), current_tree2.root());
}

#[test]
fn test_mixed_operations() {
    let mut current_tree: Tree = MerkleTree::new();
    let items = leaves();

    for item in &items {
        let (new_tree, _) = current_tree.insert(item.0, *item);
        current_tree = new_tree;
    }
    assert_eq!(current_tree.size(), 4);

    let (tree_after_removal, _) = current_tree.remove(&items[1].0).unwrap();
    assert_eq!(tree_after_removal.size(), 3);

    let (tree_after_removal2, _) = tree_after_removal.remove(&items[3].0).unwrap();
    assert_eq!(tree_after_removal2.size(), 2);

    let new_item = TestLeaf([250; 32]);
    let (final_tree, _) = tree_after_removal2.insert(new_item.0, new_item);
    assert_eq!(final_tree.size(), 3);
}

#[test]
fn test_empty_tree_root_consistency() {
    let tree1: Tree = MerkleTree::new();
    let tree2: Tree = MerkleTree::new();
    assert_eq!(tree1.root(), tree2.root());
}

#[test]
fn test_position_tracking() {
    let mut current_tree: Tree = MerkleTree::new();
    let mut positions = Vec::new();

    for item in &leaves()[..3] {
        let (new_tree, pos) = current_tree.insert(item.0, *item);
        current_tree = new_tree;
        positions.push(pos);
    }

    assert_eq!(positions, vec![0, 1, 2]);
}

#[test]
fn test_large_tree_operations() {
    let mut current_tree: Tree = MerkleTree::new();
    let num_items = 100;

    for i in 0..num_items {
        let item = TestLeaf::from_usize(i);
        let (new_tree, pos) = current_tree.insert(item.0, item);
        current_tree = new_tree;
        assert_eq!(pos, i);
    }

    assert_eq!(current_tree.size(), num_items);

    for i in (0..num_items).step_by(2) {
        let key = TestLeaf::from_usize(i);
        let result = current_tree.remove(&key.0);
        assert!(result.is_ok());
        let (new_tree, _) = result.unwrap();
        current_tree = new_tree;
    }

    assert_eq!(current_tree.size(), num_items / 2);
}

#[test]
fn test_removed_slot_is_reused() {
    let mut current_tree: Tree = MerkleTree::new();
    let items = (0..3).map(TestLeaf::from_usize).collect::<Vec<_>>();
    for item in &items {
        current_tree = current_tree.insert(item.0, *item).0;
    }

    let (current_tree, _) = current_tree.remove(&items[1].0).unwrap();
    let new_item = TestLeaf::from_usize(9);
    let (current_tree, pos) = current_tree.insert(new_item.0, new_item);

    assert_eq!(pos, 1);
    assert_eq!(current_tree.size(), 3);
}

#[test]
fn test_root_depends_on_insertion_order() {
    let a = TestLeaf::from_usize(1);
    let b = TestLeaf::from_usize(2);

    let tree1: Tree = MerkleTree::new();
    let tree1 = tree1.insert(a.0, a).0.insert(b.0, b).0;

    let tree2: Tree = MerkleTree::new();
    let tree2 = tree2.insert(b.0, b).0.insert(a.0, a).0;

    assert_ne!(tree1.root(), tree2.root());
}

#[test]
fn test_update_changes_root_and_keeps_position() {
    let mut current_tree: Tree = MerkleTree::new();
    let keys = (0..3).map(TestLeaf::from_usize).collect::<Vec<_>>();
    for key in &keys {
        current_tree = current_tree.insert(key.0, *key).0;
    }
    let root_before = current_tree.root();

    let new_item = TestLeaf::from_usize(42);
    let updated = current_tree.update(&keys[1].0, new_item).ok().unwrap();

    assert_eq!(updated.size(), 3);
    assert!(updated.contains(&keys[1].0));
    assert_eq!(updated.get(&keys[1].0), Some(new_item));
    assert_ne!(updated.root(), root_before);

    let restored = updated.update(&keys[1].0, keys[1]).ok().unwrap();
    assert_eq!(restored.root(), root_before);
}

#[test]
fn test_update_does_not_create_a_hole() {
    let mut current_tree: Tree = MerkleTree::new();
    let keys = (0..3).map(TestLeaf::from_usize).collect::<Vec<_>>();
    for key in &keys {
        current_tree = current_tree.insert(key.0, *key).0;
    }

    let updated = current_tree.update(&keys[1].0, TestLeaf::from_usize(42)).ok().unwrap();

    let extra = TestLeaf::from_usize(43);
    let (_, pos) = updated.insert(extra.0, extra);
    assert_eq!(pos, 3);
}

#[test]
fn test_update_non_existing_item() {
    let tree: Tree = MerkleTree::new();
    let key = TestLeaf::from_usize(1);
    let (tree, _) = tree.insert(key.0, key);

    let missing = TestLeaf::from_usize(2);
    let result = tree.update(&missing.0, missing);
    assert!(matches!(result, Err(Error::NotFound)));
}

#[test]
fn test_get_and_contains() {
    let tree: Tree = MerkleTree::new();
    let key = TestLeaf::from_usize(1);
    let item = TestLeaf::from_usize(7);
    let other = TestLeaf::from_usize(2);
    let (tree, _) = tree.insert(key.0, item);

    assert!(tree.contains(&key.0));
    assert!(!tree.contains(&other.0));
    assert_eq!(tree.get(&key.0), Some(item));
    assert_eq!(tree.get(&other.0), None);
    assert_eq!(tree.get_ref(&key.0), Some(&item));
    assert_eq!(tree.get_ref(&other.0), None);
}

#[test]
fn test_path_for_present_and_absent_keys() {
    let tree: Tree = MerkleTree::new();
    let key = TestLeaf::from_usize(1);
    let (tree, _) = tree.insert(key.0, key);

    assert!(tree.path(&key.0).is_some());
    assert!(tree.path(&TestLeaf::from_usize(2).0).is_none());
}

fn climb(leaf: NodeHash, path: &[MerkleNode]) -> NodeHash {
    let mut node = leaf;
    for sibling in path {
        node = match sibling {
            MerkleNode::Left(left) => Blake2bMerkleHasher::compress(left, &node),
            MerkleNode::Right(right) => Blake2bMerkleHasher::compress(&node, right),
        };
    }
    node
}

#[test]
fn paths_lead_to_the_root() {
    let mut tree: Tree = MerkleTree::new();
    let items = (0..6).map(TestLeaf::from_usize).collect::<Vec<_>>();
    for item in &items {
        tree = tree.insert(item.0, *item).0;
    }
    tree = tree.remove(&items[2].0).unwrap().0;
    for item in &items {
        match tree.path(&item.0) {
            Some(path) => assert_eq!(climb(item.0, &path), tree.root()),
            None => assert_eq!(*item, items[2]),
        }
    }
}

#[test]
fn compression_can_be_undone() {
    for removed in [vec![], vec![0], vec![1, 3], vec![4]] {
        let mut tree: Tree = MerkleTree::new();
        let items = (0..5).map(TestLeaf::from_usize).collect::<Vec<_>>();
        for item in &items {
            tree = tree.insert(item.0, *item).0;
        }
        for i in &removed {
            tree = tree.remove(&items[*i].0).unwrap().0;
        }

        let recovered: Tree = MerkleTree::from_compressed(tree.compressed());
        assert_eq!(recovered.root(), tree.root());
        assert_eq!(recovered.size(), tree.size());
        for item in &items {
            assert_eq!(recovered.get(&item.0), tree.get(&item.0));
        }
        let extra = TestLeaf::from_usize(77);
        assert_eq!(recovered.insert(extra.0, extra).1, tree.insert(extra.0, extra).1);
    }
}

#[test]
fn items_are_listed_once_each() {
    let items = (0..5).map(TestLeaf::from_usize).collect::<Vec<_>>();
    let tree: Tree = MerkleTree::from_items(items.iter().map(|item| (item.0, *item)).collect());
    let mut listed: Vec<[u8; 32]> = tree.iter().iter().map(|(key, _)| *key).collect();
    listed.sort();
    let mut expected: Vec<[u8; 32]> = items.iter().map(|item| item.0).collect();
    expected.sort();
    assert_eq!(listed, expected);
    assert_eq!(tree.items().count(), 5);
}
