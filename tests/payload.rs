use hana::blobstream::{encode_data_root_tuple, ProofError};
use hana::payload::{BlobstreamProof, DecodeError, OraclePayload, PAYLOAD_FORMAT};
use hana::provider::{blob_from_preimage, verify_blob_shares, verify_data_root_tuple, OracleError};

fn sample_payload() -> OraclePayload {
    OraclePayload::new(
        vec![0xDE, 0xAD, 0xBE, 0xEF],
        [0x01; 32],
        [0x02; 32],
        vec![0x03, 0x04],
        vec![0x05],
        [0x06; 32],
        [0x07; 32],
        vec![vec![0x08, 0x09, 0x0a], vec![], vec![0x0b]],
    )
}

fn le(n: u64) -> Vec<u8> {
    n.to_le_bytes().to_vec()
}

#[test]
fn payload_binary_layout() {
    let mut expected = vec![PAYLOAD_FORMAT];
    expected.extend(le(4));
    expected.extend([0xDE, 0xAD, 0xBE, 0xEF]);
    expected.extend([0x01; 32]);
    expected.extend([0x02; 32]);
    expected.extend(le(2));
    expected.extend([0x03, 0x04]);
    expected.extend(le(1));
    expected.extend([0x05]);
    expected.extend([0x06; 32]);
    expected.extend([0x07; 32]);
    expected.extend(le(3));
    expected.extend(le(3));
    expected.extend([0x08, 0x09, 0x0a]);
    expected.extend(le(0));
    expected.extend(le(1));
    expected.extend([0x0b]);
    assert_eq!(sample_payload().to_bytes(), expected);
}

#[test]
fn payload_round_trip() {
    let p = sample_payload();
    let bytes = p.to_bytes();
    let q = OraclePayload::from_bytes(&bytes).unwrap();
    assert_eq!(q.blob, p.blob);
    assert_eq!(q.data_root, p.data_root);
    assert_eq!(q.data_commitment, p.data_commitment);
    assert_eq!(q.data_root_tuple_proof, p.data_root_tuple_proof);
    assert_eq!(q.share_proof, p.share_proof);
    assert_eq!(q.proof_nonce, p.proof_nonce);
    assert_eq!(q.storage_root, p.storage_root);
    assert_eq!(q.storage_proof, p.storage_proof);
    assert_eq!(q.to_bytes(), bytes);
}

#[test]
fn empty_payload_round_trip() {
    let p = OraclePayload::new(vec![], [0; 32], [0; 32], vec![], vec![], [0; 32], [0; 32], vec![]);
    let bytes = p.to_bytes();
    assert_eq!(bytes.len(), 1 + 8 + 32 + 32 + 8 + 8 + 32 + 32 + 8);
    let q = OraclePayload::from_bytes(&bytes).unwrap();
    assert!(q.blob.is_empty());
    assert!(q.storage_proof.is_empty());
}

#[test]
fn payload_with_trailing_bytes_is_rejected() {
    let mut bytes = sample_payload().to_bytes();
    bytes.push(0);
    assert_eq!(OraclePayload::from_bytes(&bytes).unwrap_err(), DecodeError::Corrupt);
}

#[test]
fn truncated_payload_is_rejected() {
    let bytes = sample_payload().to_bytes();
    for n in 0..bytes.len() {
        assert_eq!(OraclePayload::from_bytes(&bytes[..n]).unwrap_err(), DecodeError::Corrupt);
    }
}

#[test]
fn oversized_length_is_rejected() {
    let mut bytes = sample_payload().to_bytes();
    bytes[1..9].copy_from_slice(&u64::MAX.to_le_bytes());
    assert_eq!(OraclePayload::from_bytes(&bytes).unwrap_err(), DecodeError::Corrupt);
}

#[test]
fn blobstream_proof_round_trip() {
    let p = BlobstreamProof::new(
        [0x01; 32],
        [0x02; 32],
        vec![0x03],
        vec![0x04, 0x05],
        [0x06; 32],
        [0x07; 32],
        vec![vec![0x08]],
    );
    let bytes = p.to_bytes();
    let q = BlobstreamProof::from_bytes(&bytes).unwrap();
    assert_eq!(q.share_proof, p.share_proof);
    assert_eq!(q.storage_proof, p.storage_proof);
    assert_eq!(q.to_bytes(), bytes);
    let blob_payload = OraclePayload::from_proof(vec![0xDE, 0xAD, 0xBE, 0xEF], p.clone());
    let mut expected = vec![PAYLOAD_FORMAT];
    expected.extend(4u64.to_le_bytes());
    expected.extend([0xDE, 0xAD, 0xBE, 0xEF]);
    expected.extend(bytes);
    assert_eq!(blob_payload.to_bytes(), expected);
}

#[test]
fn guest_rejects_corrupt_preimage() {
    assert_eq!(blob_from_preimage(&[1, 2, 3], 42, &[0u8; 32]), Err(OracleError::PayloadCorrupt));
    let mut bytes = sample_payload().to_bytes();
    bytes.push(7);
    assert_eq!(blob_from_preimage(&bytes, 42, &[0u8; 32]), Err(OracleError::PayloadCorrupt));
}

#[test]
fn guest_rejects_bad_share_proof() {
    let bytes = sample_payload().to_bytes();
    assert_eq!(
        blob_from_preimage(&bytes, 42, &[0u8; 32]),
        Err(OracleError::ProofInvalid(ProofError::ShareProof))
    );
    assert_eq!(sample_payload().verify(42, &[0u8; 32]), Err(ProofError::ShareProof));
}

#[test]
fn share_proof_that_does_not_decode_fails() {
    assert_eq!(verify_blob_shares(&[0xff; 16], &[0u8; 32]), Err(ProofError::ShareProof));
    assert_eq!(verify_blob_shares(&[], &[0u8; 32]), Err(ProofError::ShareProof));
}

#[test]
fn data_root_tuple_proof_verifies() {
    let data_root = [0x44u8; 32];
    let tuple = encode_data_root_tuple(42, &data_root);
    let other = encode_data_root_tuple(43, &[0x55u8; 32]);
    let (proof, commitment) = celestia_types::MerkleProof::new(0, &[tuple, other]).unwrap();
    let proof_bytes = bincode::serialize(&proof).unwrap();
    assert_eq!(verify_data_root_tuple(&proof_bytes, 42, &data_root, &commitment), Ok(()));
    assert_eq!(
        verify_data_root_tuple(&proof_bytes, 43, &data_root, &commitment),
        Err(ProofError::DataRootTupleProof)
    );
    assert_eq!(
        verify_data_root_tuple(&proof_bytes, 42, &[0x45u8; 32], &commitment),
        Err(ProofError::DataRootTupleProof)
    );
    assert_eq!(
        verify_data_root_tuple(&proof_bytes, 42, &data_root, &[0u8; 32]),
        Err(ProofError::DataRootTupleProof)
    );
    assert_eq!(
        verify_data_root_tuple(&[1, 2, 3], 42, &data_root, &commitment),
        Err(ProofError::DataRootTupleProof)
    );
}

#[test]
fn payload_of_other_format_is_rejected() {
    let mut bytes = sample_payload().to_bytes();
    assert_eq!(bytes[0], 1);
    bytes[0] = 2;
    assert_eq!(OraclePayload::from_bytes(&bytes).unwrap_err(), DecodeError::Corrupt);
    assert_eq!(OraclePayload::from_bytes(&[]).unwrap_err(), DecodeError::Corrupt);
}
