//! Hashing, Merkle tree and byte-utility behavior.

use stratum::bytes::{le64, le64_read, lex_le_bytes, sort_byte_strings};
use stratum::commit::merkle_tree_depth;
use stratum::hashing::{derive_hash, hash_internal_node, hash_leaf, hex_decode, hex_encode, Sha256Hasher};
use stratum::merkle::{build_merkle_root, generate_merkle_proof, verify_merkle_proof, zero_hash_vec};

#[test]
fn test_derive_hash() {
    let left = b"left_data";
    let right = b"right_data";
    let hash1 = derive_hash(left, right);
    let hash2 = derive_hash(left, right);
    let hash3 = derive_hash(right, left);

    // Same inputs should produce same hash
    assert_eq!(hash1, hash2);
    // Different order should produce different hash
    assert_ne!(hash1, hash3);
}

#[test]
fn test_merkle_tree_operations() {
    let data = vec![
        b"file1_content".to_vec(),
        b"file2_content".to_vec(),
        b"file3_content".to_vec(),
    ];

    // Build merkle root
    let root = build_merkle_root(&data);
    assert_ne!(root, vec![0u8; 32]); // Should not be empty

    // Generate proof for middle element
    let proof = generate_merkle_proof(&data, 1);
    assert!(proof.is_some());

    let proof_hashes = proof.unwrap();

    // Verify the proof
    let is_valid = verify_merkle_proof(&proof_hashes, &root, b"file2_content", 1, data.len());
    assert!(is_valid);

    // Verify with wrong data should fail
    let is_invalid = verify_merkle_proof(&proof_hashes, &root, b"wrong_content", 1, data.len());
    assert!(!is_invalid);
}

#[test]
fn test_leaf_vs_internal_node_hashing() {
    let data = b"test_data";
    let leaf_hash = hash_leaf(data);
    let internal_hash = hash_internal_node(&[0u8; 32], &[1u8; 32]);

    // Different prefixes should produce different hashes even with same data
    assert_ne!(leaf_hash, internal_hash);
}

#[test]
fn test_empty_merkle_tree() {
    let empty_data: Vec<Vec<u8>> = vec![];
    let root = build_merkle_root(&empty_data);
    assert_eq!(root, vec![0u8; 32]); // Empty tree should have zero hash
}

#[test]
fn merkle_proof_round_trip_every_index() {
    let data: Vec<Vec<u8>> = (0u8..7).map(|i| vec![i, i + 1, i + 2]).collect();
    let root = build_merkle_root(&data);
    for i in 0..data.len() {
        let proof = generate_merkle_proof(&data, i).unwrap();
        assert!(verify_merkle_proof(&proof, &root, &data[i], i, data.len()));
        // a proof checked at the wrong index fails
        let wrong_index = (i + 1) % data.len();
        assert!(!verify_merkle_proof(&proof, &root, &data[i], wrong_index, data.len()));
    }
}

#[test]
fn merkle_single_leaf_has_empty_proof() {
    let data = vec![b"only".to_vec()];
    let root = build_merkle_root(&data);
    let proof = generate_merkle_proof(&data, 0).unwrap();
    assert!(proof.is_empty());
    assert!(verify_merkle_proof(&proof, &root, b"only", 0, 1));
}

#[test]
fn merkle_proof_out_of_range_is_none() {
    let data = vec![b"a".to_vec(), b"b".to_vec()];
    assert!(generate_merkle_proof(&data, 2).is_none());
    let empty: Vec<Vec<u8>> = vec![];
    assert!(generate_merkle_proof(&empty, 0).is_none());
}

#[test]
fn merkle_bit_flip_falsifies_proof() {
    let data = vec![b"alpha".to_vec(), b"beta".to_vec(), b"gamma".to_vec(), b"delta".to_vec()];
    let root = build_merkle_root(&data);
    let proof = generate_merkle_proof(&data, 2).unwrap();
    assert!(verify_merkle_proof(&proof, &root, b"gamma", 2, 4));
    let mut mutated = b"gamma".to_vec();
    mutated[0] ^= 0x01;
    assert!(!verify_merkle_proof(&proof, &root, &mutated, 2, 4));
}

#[test]
fn sha256_hasher_matches_known_digest() {
    // SHA-256 of the empty input, a published constant
    let digest = Sha256Hasher::hash(b"");
    assert_eq!(
        hex_encode(&digest),
        "e3b0c44298fc1c149afbf4c8996fb92427ae41e4649b934ca495991b7852b855"
    );
}

#[test]
fn hex_round_trip() {
    let bytes = vec![0x00u8, 0x01, 0xab, 0xcd, 0xef, 0xff];
    let s = hex_encode(&bytes);
    assert_eq!(s, "0001abcdefff");
    assert_eq!(hex_decode(&s).unwrap(), bytes);
    assert_eq!(hex_decode("ABCDEF").unwrap(), vec![0xabu8, 0xcd, 0xef]);
    assert!(hex_decode("abc").is_err()); // odd length
    assert!(hex_decode("zz").is_err()); // not hex
}

#[test]
fn le64_round_trip() {
    for n in [0u64, 1, 255, 256, 0xdead_beef, u64::MAX] {
        let bytes = le64(n);
        assert_eq!(bytes.len(), 8);
        assert_eq!(le64_read(&bytes), n);
    }
    assert_eq!(le64(0x0102_0304), vec![4u8, 3, 2, 1, 0, 0, 0, 0]);
}

#[test]
fn byte_string_sorting() {
    assert!(lex_le_bytes(b"abc", b"abd"));
    assert!(lex_le_bytes(b"ab", b"abc"));
    assert!(!lex_le_bytes(b"b", b"abc"));
    let sorted = sort_byte_strings(vec![b"b".to_vec(), b"a/c".to_vec(), b"a".to_vec()]);
    assert_eq!(sorted, vec![b"a".to_vec(), b"a/c".to_vec(), b"b".to_vec()]);
}

#[test]
fn merkle_depth_values() {
    assert_eq!(merkle_tree_depth(0), 0);
    assert_eq!(merkle_tree_depth(1), 0);
    assert_eq!(merkle_tree_depth(2), 1);
    assert_eq!(merkle_tree_depth(3), 2);
    assert_eq!(merkle_tree_depth(4), 2);
    assert_eq!(merkle_tree_depth(5), 3);
    assert_eq!(merkle_tree_depth(1024), 10);
    assert_eq!(merkle_tree_depth(1025), 11);
}

#[test]
fn zero_hash_is_32_zero_bytes() {
    assert_eq!(zero_hash_vec(), vec![0u8; 32]);
}
