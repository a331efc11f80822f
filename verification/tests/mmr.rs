use ledger::merkle::blake2b::{blake2b, Blake2bMerkleHasher};
use ledger::merkle::hasher::{empty_leaf, empty_subtree_root, MerkleHasher, NodeHash};
use ledger::mmr::path::{
    are_siblings_at, is_left_child, sibling_height, BoundedError, MerklePath, MerklePathError,
    ACCEPTABLE_MAX_HEIGHT, MAX_MERKLE_PATH_SIBLINGS,
};
use ledger::mmr::{
    validate_supported_max_height, MerkleMountainRange, MmrFull, PushWithPathsError, Root,
    UnsupportedMmrHeight,
};

type Hasher = Blake2bMerkleHasher;

fn leaf(data: &[u8]) -> NodeHash {
    let mut repr = [0u8; 32];
    repr[..data.len()].copy_from_slice(data);
    repr
}

fn compress(left: NodeHash, right: NodeHash) -> NodeHash {
    Hasher::compress(&left, &right)
}

fn padded_leaves(elements: &[&[u8]], height: u8) -> Vec<NodeHash> {
    let mut leaves: Vec<NodeHash> = elements.iter().map(|e| leaf(e)).collect();
    leaves.resize(1 << (height - 1), empty_leaf());
    leaves
}

fn root(elements: &[NodeHash]) -> NodeHash {
    let n = elements.len();
    assert!(n.is_power_of_two());
    let mut nodes = elements.to_vec();
    for h in (1..=n.ilog2()).rev() {
        for i in 0..2usize.pow(h - 1) {
            nodes[i] = compress(nodes[i * 2], nodes[i * 2 + 1]);
        }
    }
    nodes[0]
}

#[test]
fn test_empty_roots() {
    let mut root = empty_leaf();
    for i in 1..=ACCEPTABLE_MAX_HEIGHT {
        assert_eq!(root, empty_subtree_root::<Hasher>(i));
        root = compress(root, root);
    }
}

#[test]
fn test_empty_tree() {
    let mmr = MerkleMountainRange::<Hasher, 3>::new();
    assert_eq!(mmr.len(), 0);
    assert!(mmr.is_empty());
    assert_eq!(mmr.frontier_root(), empty_subtree_root::<Hasher>(3));
}

#[test]
fn test_merkle_path_accepts_all_globally_valid_lengths() {
    for sibling_count in 0..=MAX_MERKLE_PATH_SIBLINGS {
        let path = MerklePath::try_new(0, vec![empty_leaf(); sibling_count]).unwrap();
        assert_eq!(path.siblings().len(), sibling_count);
    }
}

#[test]
fn test_merkle_path_rejects_too_many_siblings() {
    let error =
        MerklePath::try_new(0, vec![empty_leaf(); MAX_MERKLE_PATH_SIBLINGS + 1]).unwrap_err();
    assert!(matches!(
        error,
        MerklePathError::SiblingCountOutOfBounds(BoundedError::TooManyItems { .. })
    ));
}

#[test]
fn test_merkle_path_validates_supported_height_range() {
    let minimum = MerklePath::try_new(0, vec![]).unwrap();
    assert!(minimum.validate_for_height(1).is_ok());

    let maximum = MerklePath::try_new(0, vec![empty_leaf(); MAX_MERKLE_PATH_SIBLINGS]).unwrap();
    assert!(maximum.validate_for_height(ACCEPTABLE_MAX_HEIGHT).is_ok());
    assert!(maximum.validate_for_height(ACCEPTABLE_MAX_HEIGHT - 1).is_err());
}

#[test]
fn test_mmr_push() {
    const HEIGHT: u8 = 3;
    let mut mmr = MerkleMountainRange::<Hasher, HEIGHT>::new();
    assert_eq!(mmr.capacity(), 4);
    assert_eq!(mmr.len(), 0);
    let frontier_root0 = mmr.frontier_root();
    assert_eq!(frontier_root0, empty_subtree_root::<Hasher>(HEIGHT));

    mmr = mmr.push(leaf(b"hello")).unwrap();
    assert_eq!(mmr.len(), 1);
    let roots = mmr.roots();
    assert_eq!(roots.len(), 1);
    assert_eq!(roots[0].height, 1);
    assert_eq!(roots[0].root, leaf(b"hello"));
    let frontier_root1 = mmr.frontier_root();
    assert_ne!(frontier_root1, frontier_root0);

    mmr = mmr.push(leaf(b"world")).unwrap();
    assert_eq!(mmr.len(), 2);
    let roots = mmr.roots();
    assert_eq!(roots.len(), 1);
    assert_eq!(roots[0].height, 2);
    assert_eq!(roots[0].root, compress(leaf(b"hello"), leaf(b"world")));
    let frontier_root2 = mmr.frontier_root();
    assert_ne!(frontier_root2, frontier_root1);

    mmr = mmr.push(leaf(b"!")).unwrap();
    assert_eq!(mmr.len(), 3);
    let roots = mmr.roots();
    assert_eq!(roots.len(), 2);
    let tallest = roots.iter().max_by_key(|r| r.height).unwrap();
    assert_eq!(tallest.height, 2);
    assert_eq!(tallest.root, compress(leaf(b"hello"), leaf(b"world")));
    let lowest = roots.iter().min_by_key(|r| r.height).unwrap();
    assert_eq!(lowest.height, 1);
    assert_eq!(lowest.root, leaf(b"!"));
    let frontier_root3 = mmr.frontier_root();
    assert_ne!(frontier_root3, frontier_root2);

    mmr = mmr.push(leaf(b"!")).unwrap();
    assert_eq!(mmr.len(), 4);
    let roots = mmr.roots();
    assert_eq!(roots.len(), 1);
    assert_eq!(roots[0].height, 3);
    assert_eq!(
        roots[0].root,
        compress(
            compress(leaf(b"hello"), leaf(b"world")),
            compress(leaf(b"!"), leaf(b"!"))
        )
    );
    let frontier_root4 = mmr.frontier_root();
    assert_ne!(frontier_root4, frontier_root3);

    assert!(matches!(mmr.push(leaf(b"already full")), Err(MmrFull)));
}

#[test]
fn test_merkle_path_track_all() {
    const HEIGHT: u8 = 4;
    let elements: &[&[u8]] = &[b"a", b"b", b"c", b"d", b"e", b"f", b"g", b"h"];
    let leaf_hashes: Vec<NodeHash> = elements.iter().map(|e| leaf(e)).collect();

    let mut mmr = MerkleMountainRange::<Hasher, HEIGHT>::new();
    let mut paths: Vec<MerklePath> = Vec::new();

    for (i, elem) in elements.iter().enumerate() {
        let (new_mmr, new_path) = mmr.push_with_paths(leaf(elem), &mut paths).unwrap();
        mmr = new_mmr;
        paths.push(new_path);

        let frontier = mmr.frontier_root();
        for (j, path) in paths.iter().enumerate() {
            assert!(
                path.verify::<Hasher>(leaf_hashes[j], frontier),
                "path {j} invalid after pushing element {i}"
            );
        }
    }
}

#[test]
fn test_merkle_path_track_some() {
    const HEIGHT: u8 = 4;
    let elements: &[&[u8]] = &[b"a", b"b", b"c", b"d", b"e", b"f", b"g", b"h"];

    let mut mmr = MerkleMountainRange::<Hasher, HEIGHT>::new();
    let mut paths: Vec<MerklePath> = Vec::new();
    let mut kept: Vec<usize> = Vec::new();

    for (i, elem) in elements.iter().enumerate() {
        let (new_mmr, new_path) = mmr.push_with_paths(leaf(elem), &mut paths).unwrap();
        mmr = new_mmr;
        if i % 2 == 0 {
            kept.push(i);
            paths.push(new_path);
        }

        let frontier = mmr.frontier_root();
        for (k, path) in paths.iter().enumerate() {
            let idx = kept[k];
            assert!(
                path.verify::<Hasher>(leaf(elements[idx]), frontier),
                "path for leaf {idx} invalid after pushing element {i}"
            );
        }
    }
}

#[test]
fn test_push_with_paths_rejects_wrong_sibling_count() {
    let mmr = MerkleMountainRange::<Hasher, 3>::new();
    let mut paths = vec![MerklePath::try_new(0, vec![empty_leaf()]).unwrap()];

    assert!(matches!(
        mmr.push_with_paths(leaf(b"a"), &mut paths),
        Err(PushWithPathsError::InvalidTrackedPath(
            MerklePathError::InvalidSiblingCount { expected: 2, actual: 1 }
        ))
    ));
}

#[test]
fn test_push_with_paths_rejects_out_of_range_leaf_index() {
    let mmr = MerkleMountainRange::<Hasher, 3>::new().push(leaf(b"a")).unwrap();
    let mut paths = vec![MerklePath::try_new(1, vec![empty_leaf(); 2]).unwrap()];

    assert!(matches!(
        mmr.push_with_paths(leaf(b"b"), &mut paths),
        Err(PushWithPathsError::InvalidTrackedPath(
            MerklePathError::LeafIndexOutOfRange { leaf_index: 1, leaf_count: 1 }
        ))
    ));
}

#[test]
fn test_push_with_paths_validates_all_paths_before_mutation() {
    let mmr = MerkleMountainRange::<Hasher, 3>::new();
    let (mmr, valid_path) = mmr.push_with_paths(leaf(b"a"), &mut []).unwrap();
    let original_root = mmr.frontier_root();
    let original_len = mmr.len();
    let invalid_path = MerklePath::try_new(0, vec![empty_leaf()]).unwrap();
    let mut paths = vec![valid_path, invalid_path];
    let original_paths = paths.clone();

    assert!(matches!(
        mmr.push_with_paths(leaf(b"b"), &mut paths),
        Err(PushWithPathsError::InvalidTrackedPath(
            MerklePathError::InvalidSiblingCount { expected: 2, actual: 1 }
        ))
    ));
    assert_eq!(paths, original_paths);
    assert_eq!(mmr.frontier_root(), original_root);
    assert_eq!(mmr.len(), original_len);
}

#[test]
fn test_merkle_path_single_element() {
    const HEIGHT: u8 = 3;
    let mut mmr = MerkleMountainRange::<Hasher, HEIGHT>::new();
    let (new_mmr, path) = mmr.push_with_paths(leaf(b"only"), &mut []).unwrap();
    mmr = new_mmr;
    assert_eq!(path.leaf_index(), 0);
    assert!(path.verify::<Hasher>(leaf(b"only"), mmr.frontier_root()));
    assert!(!path.verify::<Hasher>(leaf(b"other"), mmr.frontier_root()));
}

#[test]
fn test_merkle_path_full_tree() {
    const HEIGHT: u8 = 3;
    let mut mmr = MerkleMountainRange::<Hasher, HEIGHT>::new();
    let mut paths: Vec<MerklePath> = Vec::new();
    let elems: &[&[u8]] = &[b"w", b"x", b"y", b"z"];

    for elem in elems {
        let (new_mmr, new_path) = mmr.push_with_paths(leaf(elem), &mut paths).unwrap();
        mmr = new_mmr;
        paths.push(new_path);
    }

    let frontier = mmr.frontier_root();
    let expected = root(&padded_leaves(elems, HEIGHT));
    assert_eq!(frontier, expected);
    for (i, path) in paths.iter().enumerate() {
        assert_eq!(path.root::<Hasher>(leaf(elems[i])), frontier);
    }

    assert!(matches!(
        mmr.push_with_paths(leaf(b"overflow"), &mut paths),
        Err(PushWithPathsError::MmrFull(MmrFull))
    ));
}

#[test]
fn test_push_with_paths_matches_push() {
    const HEIGHT: u8 = 8;
    let mut mmr_a = MerkleMountainRange::<Hasher, HEIGHT>::new();
    let mut mmr_b = MerkleMountainRange::<Hasher, HEIGHT>::new();

    for i in 0u64..50 {
        let bytes = i.to_le_bytes();
        mmr_a = mmr_a.push(leaf(bytes.as_ref())).unwrap();
        let (new_b, _) = mmr_b.push_with_paths(leaf(bytes.as_ref()), &mut []).unwrap();
        mmr_b = new_b;
        assert_eq!(mmr_a.frontier_root(), mmr_b.frontier_root());
    }
}

#[test]
fn frontier_root_is_the_root_of_the_padded_leaves() {
    let names: Vec<[u8; 8]> = (0u64..100).map(u64::to_le_bytes).collect();
    let mut mmr = MerkleMountainRange::<Hasher, 8>::new();
    for (i, name) in names.iter().enumerate() {
        mmr = mmr.push(leaf(name)).unwrap();
        let elements: Vec<&[u8]> = names[..=i].iter().map(|n| n.as_ref()).collect();
        assert_eq!(mmr.frontier_root(), root(&padded_leaves(&elements, 8)));
    }
}

#[test]
fn a_range_is_restored_from_its_roots() {
    let mut mmr = MerkleMountainRange::<Hasher, 5>::new();
    for i in 0u8..11 {
        mmr = mmr.push([i + 1; 32]).unwrap();
    }
    let restored = MerkleMountainRange::<Hasher, 5>::from_roots(&mmr.roots()).unwrap();
    assert_eq!(restored.frontier_root(), mmr.frontier_root());
    assert_eq!(restored.len(), mmr.len());
    assert!(restored == mmr);
    assert!(restored != mmr.push([42; 32]).unwrap());
    assert_eq!(
        restored.push([42; 32]).unwrap().frontier_root(),
        mmr.push([42; 32]).unwrap().frontier_root()
    );
}

#[test]
fn peaks_of_no_range_are_recognised() {
    let root = |height: u8| Root { root: [7; 32], height };
    let valid = |roots: &[Root]| {
        MerkleMountainRange::<Hasher, 5>::from_roots(roots).unwrap().is_well_formed()
    };
    assert!(valid(&[]));
    assert!(valid(&[root(5)]));
    assert!(valid(&[root(4), root(2), root(1)]));
    assert!(!valid(&[root(0)]));
    assert!(!valid(&[root(6)]));
    assert!(!valid(&[root(5), root(1)]));
    assert!(!valid(&[root(2), root(2)]));
    assert!(!valid(&[root(1), root(3)]));
}

#[test]
fn unsupported_heights_are_rejected() {
    assert!(validate_supported_max_height(1).is_ok());
    assert!(validate_supported_max_height(ACCEPTABLE_MAX_HEIGHT).is_ok());
    assert!(matches!(
        validate_supported_max_height(0),
        Err(UnsupportedMmrHeight { .. })
    ));
    assert!(validate_supported_max_height(ACCEPTABLE_MAX_HEIGHT + 1).is_err());

    let roots: Vec<Root> = Vec::new();
    assert!(MerkleMountainRange::<Hasher, 1>::from_roots(&roots).is_ok());
    assert!(MerkleMountainRange::<Hasher, 0>::from_roots(&roots).is_err());
    assert!(MerkleMountainRange::<Hasher, 34>::from_roots(&roots).is_err());
}

#[test]
fn test_is_left_child() {
    assert!(is_left_child(0, 1));
    assert!(!is_left_child(1, 1));
    assert!(is_left_child(2, 1));
    assert!(!is_left_child(3, 1));

    assert!(is_left_child(0, 2));
    assert!(is_left_child(1, 2));
    assert!(!is_left_child(2, 2));
    assert!(!is_left_child(3, 2));

    assert!(is_left_child(0, 3));
    assert!(is_left_child(3, 3));
    assert!(!is_left_child(4, 3));
    assert!(!is_left_child(7, 3));
}

#[test]
fn test_are_siblings_at() {
    assert!(are_siblings_at(0, 1, 1));
    assert!(are_siblings_at(1, 0, 1));
    assert!(are_siblings_at(2, 3, 1));
    assert!(!are_siblings_at(0, 1, 2));
    assert!(are_siblings_at(0, 2, 2));
    assert!(are_siblings_at(1, 3, 2));
    assert!(are_siblings_at(0, 4, 3));
    assert!(are_siblings_at(3, 7, 3));
    assert!(!are_siblings_at(0, 4, 2));
}

#[test]
fn test_sibling_height() {
    assert_eq!(sibling_height(0, 1), 1);
    assert_eq!(sibling_height(6, 7), 1);
    assert_eq!(sibling_height(0, 2), 2);
    assert_eq!(sibling_height(1, 3), 2);
    assert_eq!(sibling_height(0, 4), 3);
    assert_eq!(sibling_height(3, 7), 3);
}

#[test]
fn blake2b_of_nothing_is_the_known_digest() {
    let expected: [u8; 32] = [
        0x0e, 0x57, 0x51, 0xc0, 0x26, 0xe5, 0x43, 0xb2, 0xe8, 0xab, 0x2e, 0xb0, 0x60, 0x99, 0xda,
        0xa1, 0xd1, 0xe5, 0xdf, 0x47, 0x77, 0x8f, 0x77, 0x87, 0xfa, 0xab, 0x45, 0xcd, 0xf1, 0x2f,
        0xe3, 0xa8,
    ];
    assert_eq!(blake2b(&[]), expected);
}
