use tape_core::hash::{hashv, Leaf};
use tape_core::tree::{
    compute_path, compute_path_no_std, get_merkle_proof, get_merkle_proof_no_std, hash_pairs,
    hash_pairs_no_std, is_valid_path, is_valid_path_no_std, verify, verify_no_std, MerkleTree,
};

type H = tape_core::hash::Hash;

fn create_test_leaves(count: usize) -> Vec<Leaf> {
    (0..count)
        .map(|i| {
            let data = format!("leaf_{}", i);
            Leaf::new(&[data.as_bytes()])
        })
        .collect()
}

fn create_zero_values<const N: usize>() -> [H; N] {
    let seeds: &[&[u8]] = &[b"test_zero"];
    let mut zeros: [H; N] = [H::default(); N];
    let mut current = hashv(seeds);
    for i in 0..N {
        zeros[i] = current;
        current = hashv(&[b"NODE".as_ref(), current.value.as_ref(), current.value.as_ref()]);
    }
    zeros
}

fn filled_tree<const N: usize>(leaves: &[Leaf]) -> MerkleTree<N> {
    let mut tree = MerkleTree::<N>::new(&[b"test_zero"]);
    for leaf in leaves {
        tree.try_add_leaf(*leaf).expect("Should be able to add leaf");
    }
    tree
}

fn compare_proofs<const HEIGHT: usize>(leaf_count: usize, leaf_index: usize) {
    let leaves = create_test_leaves(leaf_count);
    let zero_values = create_zero_values::<HEIGHT>();
    let std_proof = get_merkle_proof(&leaves, &zero_values, leaf_index, HEIGHT);
    let no_std_proof = get_merkle_proof_no_std::<HEIGHT>(&leaves, &zero_values, leaf_index);
    assert_eq!(std_proof.len(), no_std_proof.len(), "Proof lengths should match");
    assert_eq!(std_proof.len(), HEIGHT);
    for (i, (std_hash, no_std_hash)) in std_proof.iter().zip(no_std_proof.iter()).enumerate() {
        assert_eq!(std_hash, no_std_hash, "Hash at index {} should match", i);
    }
}

#[test]
fn test_get_merkle_proof_comparison_small_tree() {
    compare_proofs::<4>(8, 3);
}

#[test]
fn test_get_merkle_proof_comparison_medium_tree() {
    compare_proofs::<10>(64, 42);
}

#[test]
fn test_get_merkle_proof_comparison_large_tree() {
    compare_proofs::<18>(256, 123);
}

#[test]
fn test_get_merkle_proof_edge_cases() {
    const HEIGHT: usize = 8;
    let zero_values = create_zero_values::<HEIGHT>();
    let single_leaf = create_test_leaves(1);
    let single_proof = get_merkle_proof_no_std::<HEIGHT>(&single_leaf, &zero_values, 0);
    assert_eq!(single_proof.len(), HEIGHT);
    let odd_leaves = create_test_leaves(7);
    let odd_proof = get_merkle_proof_no_std::<HEIGHT>(&odd_leaves, &zero_values, 3);
    assert_eq!(odd_proof.len(), HEIGHT);
    let power_of_2_leaves = create_test_leaves(16);
    let power_of_2_proof = get_merkle_proof_no_std::<HEIGHT>(&power_of_2_leaves, &zero_values, 8);
    assert_eq!(power_of_2_proof.len(), HEIGHT);
}

#[test]
fn test_proof_verification_consistency() {
    const HEIGHT: usize = 6;
    let leaves = create_test_leaves(20);
    let zero_values = create_zero_values::<HEIGHT>();
    let leaf_index = 7;
    let proof = get_merkle_proof_no_std::<HEIGHT>(&leaves, &zero_values, leaf_index);
    let tree = filled_tree::<HEIGHT>(&leaves);
    let root = tree.get_root();
    let is_valid = verify_no_std(root, &proof, leaves[leaf_index]);
    assert!(is_valid, "Generated proof should be valid");
}

#[test]
fn test_merkle_tree_integration() {
    const HEIGHT: usize = 5;
    let leaves = create_test_leaves(15);
    let leaf_index = 5;
    let tree = filled_tree::<HEIGHT>(&leaves);
    let proof = tree.get_proof_no_std(&leaves, leaf_index);
    let root = tree.get_root();
    let is_valid = verify_no_std(root, &proof, leaves[leaf_index]);
    assert!(is_valid, "Tree-generated proof should be valid");
    assert_eq!(proof.len(), HEIGHT, "Proof length should match tree height");
}

fn compare_layers<const HEIGHT: usize, const MAX_NODES: usize>(leaf_count: usize, layers: &[usize]) {
    let leaves = create_test_leaves(leaf_count);
    let tree = filled_tree::<HEIGHT>(&leaves);
    for &layer in layers {
        let std_result = tree.get_layer_nodes(&leaves, layer);
        let (no_std_count, no_std_buffer) = tree.get_layer_nodes_no_std::<MAX_NODES>(&leaves, layer);
        assert_eq!(std_result.len(), no_std_count, "Layer {} length should match", layer);
        for (i, (std_hash, no_std_hash)) in std_result.iter().zip(no_std_buffer.iter()).enumerate() {
            if i < no_std_count {
                assert_eq!(std_hash, no_std_hash, "Layer {} hash at index {} should match", layer, i);
            }
        }
    }
}

#[test]
fn test_get_layer_nodes_comparison_small_tree() {
    compare_layers::<4, 16>(8, &[0, 1, 2, 3, 4]);
}

#[test]
fn test_get_layer_nodes_comparison_medium_tree() {
    compare_layers::<10, 64>(32, &[0, 1, 3, 5, 9, 10]);
}

#[test]
fn test_get_layer_nodes_comparison_large_tree() {
    compare_layers::<18, 256>(128, &[0, 1, 2, 5, 10, 15, 17, 18]);
}

#[test]
fn test_get_layer_nodes_edge_cases() {
    const HEIGHT: usize = 6;
    const MAX_NODES: usize = 32;
    let single_leaf = create_test_leaves(1);
    let mut tree = MerkleTree::<HEIGHT>::new(&[b"test_zero"]);
    tree.try_add_leaf(single_leaf[0]).expect("Should be able to add leaf");
    let (count, _buffer) = tree.get_layer_nodes_no_std::<MAX_NODES>(&single_leaf, 0);
    assert_eq!(count, 1, "Single leaf should produce 1 node at layer 0");
    let empty_leaves = create_test_leaves(0);
    let (count, _buffer) = tree.get_layer_nodes_no_std::<MAX_NODES>(&empty_leaves, 0);
    assert_eq!(count, 0, "Empty leaves should produce 0 nodes");
    let leaves = create_test_leaves(4);
    let (count, _buffer) = tree.get_layer_nodes_no_std::<MAX_NODES>(&leaves, HEIGHT + 1);
    assert_eq!(count, 0, "Layer beyond height should produce 0 nodes");
}

#[test]
fn test_get_layer_nodes_consistency() {
    const HEIGHT: usize = 5;
    const MAX_NODES: usize = 32;
    let leaves = create_test_leaves(10);
    let tree = filled_tree::<HEIGHT>(&leaves);
    let (layer0_count, _) = tree.get_layer_nodes_no_std::<MAX_NODES>(&leaves, 0);
    let (layer1_count, _) = tree.get_layer_nodes_no_std::<MAX_NODES>(&leaves, 1);
    let (layer2_count, _) = tree.get_layer_nodes_no_std::<MAX_NODES>(&leaves, 2);
    assert_eq!(layer0_count, 10, "Layer 0 should have 10 leaf nodes");
    assert_eq!(layer1_count, 5, "Layer 1 should have 5 nodes (10/2)");
    assert!(layer2_count <= 3, "Layer 2 should have at most 3 nodes (5/2 rounded up)");
}

#[test]
fn test_merkle_proof_functions_with_constants() {
    compare_proofs::<10>(32, 15);
    compare_proofs::<18>(64, 31);
}

#[test]
fn test_merkle_proof_verification_end_to_end() {
    const HEIGHT: usize = 8;
    let leaves = create_test_leaves(20);
    let zero_values = create_zero_values::<HEIGHT>();
    let leaf_index = 7;
    let std_proof = get_merkle_proof(&leaves, &zero_values, leaf_index, HEIGHT);
    let no_std_proof = get_merkle_proof_no_std::<HEIGHT>(&leaves, &zero_values, leaf_index);
    let tree = filled_tree::<HEIGHT>(&leaves);
    let root = tree.get_root();
    let target_leaf = leaves[leaf_index];
    let std_valid = verify(root, &std_proof, target_leaf);
    let no_std_valid = verify_no_std(root, &no_std_proof, target_leaf);
    assert!(std_valid, "Std proof should verify");
    assert!(no_std_valid, "No-std proof should verify");
    assert_eq!(std_valid, no_std_valid, "Both proofs should have same verification result");
}

#[test]
fn test_try_remove_comparison() {
    const HEIGHT: usize = 6;
    let leaves = create_test_leaves(10);
    let target_index = 5;
    let target_data: &[&[u8]] = &[b"leaf_5"];
    let mut tree_std = filled_tree::<HEIGHT>(&leaves);
    let mut tree_no_std = filled_tree::<HEIGHT>(&leaves);
    let proof = tree_std.get_proof(&leaves, target_index);
    assert_eq!(tree_std.get_root(), tree_no_std.get_root(), "Initial roots should match");
    let std_result = tree_std.try_remove(&proof, target_data);
    let no_std_result = tree_no_std.try_remove_no_std(&proof, target_data);
    assert_eq!(std_result.is_ok(), no_std_result.is_ok(), "Both results should have same success state");
    if std_result.is_ok() {
        assert_eq!(tree_std.get_root(), tree_no_std.get_root(), "Final roots should match after removal");
    }
}

#[test]
fn test_try_remove_leaf_comparison() {
    const HEIGHT: usize = 5;
    let leaves = create_test_leaves(8);
    let target_index = 3;
    let target_leaf = leaves[target_index];
    let mut tree_std = filled_tree::<HEIGHT>(&leaves);
    let mut tree_no_std = filled_tree::<HEIGHT>(&leaves);
    let proof = tree_std.get_proof(&leaves, target_index);
    let std_result = tree_std.try_remove_leaf(&proof, target_leaf);
    let no_std_result = tree_no_std.try_remove_leaf_no_std(&proof, target_leaf);
    assert_eq!(std_result.is_ok(), no_std_result.is_ok(), "Both results should have same success state");
    if std_result.is_ok() {
        assert_eq!(tree_std.get_root(), tree_no_std.get_root(), "Final roots should match after leaf removal");
    }
}

#[test]
fn test_try_replace_comparison() {
    const HEIGHT: usize = 6;
    let leaves = create_test_leaves(12);
    let target_index = 7;
    let original_data: &[&[u8]] = &[b"leaf_7"];
    let new_data: &[&[u8]] = &[b"replaced_leaf"];
    let mut tree_std = filled_tree::<HEIGHT>(&leaves);
    let mut tree_no_std = filled_tree::<HEIGHT>(&leaves);
    let proof = tree_std.get_proof(&leaves, target_index);
    let std_result = tree_std.try_replace(&proof, original_data, new_data);
    let no_std_result = tree_no_std.try_replace_no_std(&proof, original_data, new_data);
    assert_eq!(std_result.is_ok(), no_std_result.is_ok(), "Both results should have same success state");
    if std_result.is_ok() {
        assert_eq!(tree_std.get_root(), tree_no_std.get_root(), "Final roots should match after replacement");
    }
}

#[test]
fn test_try_replace_leaf_comparison() {
    const HEIGHT: usize = 5;
    let leaves = create_test_leaves(6);
    let target_index = 2;
    let original_leaf = leaves[target_index];
    let new_leaf = Leaf::new(&[b"new_replacement_leaf"]);
    let mut tree_std = filled_tree::<HEIGHT>(&leaves);
    let mut tree_no_std = filled_tree::<HEIGHT>(&leaves);
    let proof = tree_std.get_proof(&leaves, target_index);
    let std_result = tree_std.try_replace_leaf(&proof, original_leaf, new_leaf);
    let no_std_result = tree_no_std.try_replace_leaf_no_std(&proof, original_leaf, new_leaf);
    assert_eq!(std_result.is_ok(), no_std_result.is_ok(), "Both results should have same success state");
    if std_result.is_ok() {
        assert_eq!(tree_std.get_root(), tree_no_std.get_root(), "Final roots should match after leaf replacement");
    }
}

#[test]
fn test_contains_comparison() {
    const HEIGHT: usize = 6;
    let leaves = create_test_leaves(15);
    let target_index = 9;
    let target_data: &[&[u8]] = &[b"leaf_9"];
    let non_existent_data: &[&[u8]] = &[b"non_existent_leaf"];
    let tree = filled_tree::<HEIGHT>(&leaves);
    let proof = tree.get_proof(&leaves, target_index);
    let std_contains = tree.contains(&proof, target_data);
    let no_std_contains = tree.contains_no_std(&proof, target_data);
    assert_eq!(std_contains, no_std_contains, "Both should agree on existing data");
    assert!(std_contains, "Should find existing data");
    let std_not_contains = tree.contains(&proof, non_existent_data);
    let no_std_not_contains = tree.contains_no_std(&proof, non_existent_data);
    assert_eq!(std_not_contains, no_std_not_contains, "Both should agree on non-existent data");
    assert!(!std_not_contains, "Should not find non-existent data");
}

#[test]
fn test_contains_leaf_comparison() {
    const HEIGHT: usize = 5;
    let leaves = create_test_leaves(10);
    let target_index = 4;
    let target_leaf = leaves[target_index];
    let non_existent_leaf = Leaf::new(&[b"non_existent_leaf"]);
    let tree = filled_tree::<HEIGHT>(&leaves);
    let proof = tree.get_proof(&leaves, target_index);
    let std_contains = tree.contains_leaf(&proof, target_leaf);
    let no_std_contains = tree.contains_leaf_no_std(&proof, target_leaf);
    assert_eq!(std_contains, no_std_contains, "Both should agree on existing leaf");
    assert!(std_contains, "Should find existing leaf");
    let std_not_contains = tree.contains_leaf(&proof, non_existent_leaf);
    let no_std_not_contains = tree.contains_leaf_no_std(&proof, non_existent_leaf);
    assert_eq!(std_not_contains, no_std_not_contains, "Both should agree on non-existent leaf");
    assert!(!std_not_contains, "Should not find non-existent leaf");
}

#[test]
fn test_tree_operations_with_constants() {
    const TAPE_HEIGHT: usize = 10;
    let leaves = create_test_leaves(20);
    let target_index = 7;
    let original_data: &[&[u8]] = &[b"leaf_7"];
    let new_data: &[&[u8]] = &[b"tape_replacement"];
    let mut tree_std = filled_tree::<TAPE_HEIGHT>(&leaves);
    let mut tree_no_std = filled_tree::<TAPE_HEIGHT>(&leaves);
    let proof = tree_std.get_proof(&leaves, target_index);
    assert_eq!(
        tree_std.contains(&proof, original_data),
        tree_no_std.contains_no_std(&proof, original_data),
        "Contains should match for TAPE_TREE_HEIGHT"
    );
    let std_replace_result = tree_std.try_replace(&proof, original_data, new_data);
    let no_std_replace_result = tree_no_std.try_replace_no_std(&proof, original_data, new_data);
    assert_eq!(std_replace_result.is_ok(), no_std_replace_result.is_ok(), "Replace results should match");
    if std_replace_result.is_ok() {
        assert_eq!(tree_std.get_root(), tree_no_std.get_root(), "Final roots should match");
    }
}

#[test]
fn test_hash_pairs_comparison() {
    const MAX_PAIRS: usize = 8;
    let hashes = create_test_leaves(6).into_iter().map(H::from_leaf).collect::<Vec<H>>();
    let std_result = hash_pairs(hashes.clone());
    let (no_std_count, no_std_buffer) = hash_pairs_no_std::<MAX_PAIRS>(&hashes);
    assert_eq!(std_result.len(), no_std_count, "Hash pairs count should match");
    for (i, (std_hash, no_std_hash)) in std_result.iter().zip(no_std_buffer.iter()).enumerate() {
        if i < no_std_count {
            assert_eq!(std_hash, no_std_hash, "Hash pair {} should match", i);
        }
    }
}

#[test]
fn test_compute_path_comparison() {
    const HEIGHT: usize = 6;
    const MAX_PATH: usize = HEIGHT + 1;
    let leaves = create_test_leaves(10);
    let target_index = 4;
    let target_leaf = leaves[target_index];
    let tree = filled_tree::<HEIGHT>(&leaves);
    let proof = tree.get_proof(&leaves, target_index);
    let std_path = compute_path(&proof, target_leaf);
    let (no_std_count, no_std_buffer) = compute_path_no_std::<MAX_PATH>(&proof, target_leaf);
    assert_eq!(std_path.len(), no_std_count, "Path lengths should match");
    for (i, (std_hash, no_std_hash)) in std_path.iter().zip(no_std_buffer.iter()).enumerate() {
        if i < no_std_count {
            assert_eq!(std_hash, no_std_hash, "Path element {} should match", i);
        }
    }
}

#[test]
fn test_is_valid_path_comparison() {
    const HEIGHT: usize = 5;
    const MAX_PATH: usize = HEIGHT + 1;
    let leaves = create_test_leaves(8);
    let target_index = 3;
    let target_leaf = leaves[target_index];
    let tree = filled_tree::<HEIGHT>(&leaves);
    let root = tree.get_root();
    let proof = tree.get_proof(&leaves, target_index);
    let std_path = compute_path(&proof, target_leaf);
    let (no_std_count, no_std_buffer) = compute_path_no_std::<MAX_PATH>(&proof, target_leaf);
    let std_valid = is_valid_path(&std_path, root);
    let no_std_valid = is_valid_path_no_std(&no_std_buffer, no_std_count, root);
    assert_eq!(std_valid, no_std_valid, "Path validity should match");
    assert!(std_valid, "Valid path should be recognized as valid");
    let wrong_root = H::default();
    let std_invalid = is_valid_path(&std_path, wrong_root);
    let no_std_invalid = is_valid_path_no_std(&no_std_buffer, no_std_count, wrong_root);
    assert_eq!(std_invalid, no_std_invalid, "Invalid path should match");
    assert!(!std_invalid, "Invalid path should be recognized as invalid");
}

#[test]
fn test_all_utility_functions_integration() {
    const HEIGHT: usize = 6;
    const MAX_PAIRS: usize = 16;
    const MAX_PATH: usize = HEIGHT + 1;
    let leaves = create_test_leaves(12);
    let target_index = 7;
    let target_leaf = leaves[target_index];
    let tree = filled_tree::<HEIGHT>(&leaves);
    let root = tree.get_root();
    let proof = tree.get_proof(&leaves, target_index);
    let (path_count, path_buffer) = compute_path_no_std::<MAX_PATH>(&proof, target_leaf);
    let is_valid = is_valid_path_no_std(&path_buffer, path_count, root);
    assert!(is_valid, "Complete no-std workflow should validate correctly");
    let leaf_hashes: Vec<H> = leaves.iter().map(|&leaf| H::from_leaf(leaf)).collect();
    let (pairs_count, _pairs_buffer) = hash_pairs_no_std::<MAX_PAIRS>(&leaf_hashes);
    assert_eq!(pairs_count, leaf_hashes.len() / 2, "Hash pairs should process correctly");
}
