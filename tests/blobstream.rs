use alloy_trie::proof::ProofRetainer;
use alloy_trie::{HashBuilder, Nibbles};
use hana::blobstream::{
    calculate_mapping_slot, encode_data_root_tuple, verify_data_commitment_storage, ProofError,
    DATA_COMMITMENTS_SLOT,
};

fn word(n: u64) -> [u8; 32] {
    let mut w = [0u8; 32];
    w[24..].copy_from_slice(&n.to_be_bytes());
    w
}

fn hex32(s: &str) -> [u8; 32] {
    let v = alloy_primitives::hex::decode(s).unwrap();
    let mut out = [0u8; 32];
    out.copy_from_slice(&v);
    out
}

/// A storage trie holding `value` at the slot of `state_dataCommitments[nonce]`,
/// and the proof of that slot.
fn storage_fixture(nonce: &[u8; 32], value: &[u8]) -> ([u8; 32], Vec<Vec<u8>>) {
    let slot = calculate_mapping_slot(DATA_COMMITMENTS_SLOT, nonce);
    let path = Nibbles::unpack(alloy_primitives::keccak256(slot));
    let mut builder =
        HashBuilder::default().with_proof_retainer(ProofRetainer::new(vec![path.clone()]));
    builder.add_leaf(path, value);
    let root = builder.root();
    let nodes = builder
        .take_proof_nodes()
        .into_nodes_sorted()
        .into_iter()
        .map(|(_, node)| node.to_vec())
        .collect();
    (root.0, nodes)
}

#[test]
fn data_root_tuple_layout() {
    let root = [0x22u8; 32];
    let tuple = encode_data_root_tuple(0x0102030405060708, &root);
    assert_eq!(tuple.len(), 64);
    assert!(tuple[..24].iter().all(|b| *b == 0));
    assert_eq!(&tuple[24..32], &[1, 2, 3, 4, 5, 6, 7, 8]);
    assert_eq!(&tuple[32..], &root);
}

#[test]
fn data_root_tuple_height_42() {
    let tuple = encode_data_root_tuple(42, &[0u8; 32]);
    let mut expected = vec![0u8; 64];
    expected[31] = 42;
    assert_eq!(tuple, expected);
}

#[test]
fn mapping_slot_of_nonce_one() {
    let slot = calculate_mapping_slot(254, &word(1));
    assert_eq!(
        slot,
        hex32("457c8a48b4735f56b938837eb0a8a5f9c55f23c1a85767ce3b65c3e59d3d32b7")
    );
    let mut concatenated = word(1).to_vec();
    concatenated.extend_from_slice(&word(254));
    assert_eq!(slot, alloy_primitives::keccak256(&concatenated).0);
}

#[test]
fn mapping_slot_orders_key_before_slot() {
    let slot = calculate_mapping_slot(7, &word(9));
    let mut swapped = word(7).to_vec();
    swapped.extend_from_slice(&word(9));
    assert_ne!(slot, alloy_primitives::keccak256(&swapped).0);
}

#[test]
fn storage_proof_with_rlp_prefix_verifies() {
    let nonce = word(5);
    let commitment = [0x33u8; 32];
    let mut stored = vec![0xa0u8];
    stored.extend_from_slice(&commitment);
    let (root, nodes) = storage_fixture(&nonce, &stored);
    assert_eq!(verify_data_commitment_storage(&root, &nodes, &nonce, &commitment), Ok(()));
}

#[test]
fn storage_value_without_rlp_prefix_fails() {
    let nonce = word(5);
    let commitment = [0x33u8; 32];
    let (root, nodes) = storage_fixture(&nonce, &commitment);
    assert_eq!(
        verify_data_commitment_storage(&root, &nodes, &nonce, &commitment),
        Err(ProofError::StorageProof)
    );
}

#[test]
fn tampered_storage_proof_fails() {
    let nonce = word(5);
    let commitment = [0x33u8; 32];
    let mut stored = vec![0xa0u8];
    stored.extend_from_slice(&commitment);
    let (root, nodes) = storage_fixture(&nonce, &stored);
    for i in 0..nodes[0].len() {
        let mut tampered = nodes.clone();
        tampered[0][i] ^= 0x01;
        assert_eq!(
            verify_data_commitment_storage(&root, &tampered, &nonce, &commitment),
            Err(ProofError::StorageProof)
        );
    }
}

#[test]
fn storage_proof_for_other_commitment_fails() {
    let nonce = word(5);
    let mut stored = vec![0xa0u8];
    stored.extend_from_slice(&[0x33u8; 32]);
    let (root, nodes) = storage_fixture(&nonce, &stored);
    assert_eq!(
        verify_data_commitment_storage(&root, &nodes, &nonce, &[0x34u8; 32]),
        Err(ProofError::StorageProof)
    );
    assert_eq!(
        verify_data_commitment_storage(&root, &nodes, &word(6), &[0x33u8; 32]),
        Err(ProofError::StorageProof)
    );
}

#[test]
fn empty_storage_proof_fails() {
    assert_eq!(
        verify_data_commitment_storage(&[0u8; 32], &Vec::new(), &word(1), &[0u8; 32]),
        Err(ProofError::StorageProof)
    );
}

fn path_of(nonce: &[u8; 32]) -> [u8; 32] {
    alloy_primitives::keccak256(calculate_mapping_slot(DATA_COMMITMENTS_SLOT, nonce)).0
}

#[test]
fn in_place_child_under_branch_is_refused() {
    let nonce = word(5);
    let nibble = (path_of(&nonce)[0] >> 4) as usize;
    // An extension encoded in place, whose child is a leaf encoded in place.
    let extension = vec![0xc4, 0x00, 0xc2, 0x20, 0x01];
    let mut payload = Vec::new();
    for i in 0..16 {
        if i == nibble {
            payload.extend(&extension);
        } else if i == (nibble + 1) % 16 {
            payload.push(0xa0);
            payload.extend([0x77; 32]);
        } else {
            payload.push(0x80);
        }
    }
    payload.push(0x80);
    let mut node = vec![0xc0 + payload.len() as u8];
    node.extend(payload);
    let root = alloy_primitives::keccak256(&node).0;
    assert_eq!(
        verify_data_commitment_storage(&root, &vec![node], &nonce, &[0x01; 32]),
        Err(ProofError::StorageProof)
    );
}

#[test]
fn over_long_leaf_path_is_refused() {
    let nonce = word(5);
    let mut key = vec![0xa2, 0x20];
    key.extend([0x12; 33]);
    let mut payload = key;
    payload.push(0x01);
    let mut node = vec![0xc0 + payload.len() as u8];
    node.extend(payload);
    let root = alloy_primitives::keccak256(&node).0;
    assert_eq!(
        verify_data_commitment_storage(&root, &vec![node], &nonce, &[0x01; 32]),
        Err(ProofError::StorageProof)
    );
}
