use hana::blobstream::ProofError;
use hana::host::{
    assemble_blobstream_proof, commitment_slot, data_commitment_stored_topic,
    decode_data_commitment_log, first_covering_event, share_range, CelestiaChainHintHandler,
    CommitmentScan, ScanStep, SP1BlobstreamDataCommitmentStored, FILTER_BLOCK_RANGE,
};
use hana::payload::BlobstreamProof;

fn event(start: u64, end: u64) -> SP1BlobstreamDataCommitmentStored {
    SP1BlobstreamDataCommitmentStored {
        proof_nonce: [0x09; 32],
        start_block: start,
        end_block: end,
        data_commitment: [0x0a; 32],
    }
}

fn word(n: u64) -> [u8; 32] {
    let mut w = [0u8; 32];
    w[24..].copy_from_slice(&n.to_be_bytes());
    w
}

#[test]
fn share_range_in_first_row() {
    assert_eq!(share_range(3, 8, 2), Some((3, 5)));
}

#[test]
fn share_range_at_row_boundary() {
    // Index 16 opens the third row of an 8-wide extended square: the third
    // row of the 4-wide original square starts at 8.
    assert_eq!(share_range(16, 8, 3), Some((8, 11)));
    assert_eq!(share_range(0, 8, 1), Some((0, 1)));
    assert_eq!(share_range(8, 8, 4), Some((4, 8)));
}

#[test]
fn share_range_inside_row() {
    assert_eq!(share_range(18, 8, 1), Some((10, 11)));
}

#[test]
fn share_range_rejects_parity_and_empty_square() {
    assert_eq!(share_range(4, 8, 1), None);
    assert_eq!(share_range(5, 0, 1), None);
    assert_eq!(share_range(0, 8, u64::MAX), Some((0, u64::MAX)));
    assert_eq!(share_range(1, 8, u64::MAX), None);
}

#[test]
fn event_topic_is_signature_hash() {
    let topic = data_commitment_stored_topic();
    assert_eq!(
        topic.to_vec(),
        alloy_primitives::hex::decode(
            "34dd3689f5bd77a60a3ff2e09483dcab032fa2f1fd7227af3e24bed21beab1cb"
        )
        .unwrap()
    );
}

#[test]
fn decode_commitment_log() {
    let topics = vec![data_commitment_stored_topic(), word(100), word(200), [0x0a; 32]];
    let decoded = decode_data_commitment_log(&topics, &[0x09; 32]).unwrap();
    assert_eq!(decoded, event(100, 200));
}

#[test]
fn decode_rejects_other_logs() {
    let good = vec![data_commitment_stored_topic(), word(100), word(200), [0x0a; 32]];
    assert_eq!(decode_data_commitment_log(&good, &[0x09; 31]), None);
    assert_eq!(decode_data_commitment_log(&good[..3].to_vec(), &[0x09; 32]), None);
    let mut other = good.clone();
    other[0] = [0u8; 32];
    assert_eq!(decode_data_commitment_log(&other, &[0x09; 32]), None);
    let mut wide = good.clone();
    wide[1][0] = 1;
    assert_eq!(decode_data_commitment_log(&wide, &[0x09; 32]), None);
}

#[test]
fn first_covering_event_picks_first_match() {
    let events = vec![event(0, 10), event(10, 20), event(15, 30)];
    assert_eq!(first_covering_event(&events, 15), Some(1));
    assert_eq!(first_covering_event(&events, 20), Some(2));
    assert_eq!(first_covering_event(&events, 10), Some(1));
    assert_eq!(first_covering_event(&events, 30), None);
}

#[test]
fn scan_walks_back_in_windows() {
    let mut scan = CommitmentScan::new(50, 12000);
    assert_eq!((scan.start, scan.end), (12000 - FILTER_BLOCK_RANGE, 12000));
    assert_eq!(scan.step(&vec![event(0, 10)]), ScanStep::Query { from: 2000, to: 7000 });
    assert_eq!(scan.step(&vec![]), ScanStep::Query { from: 0, to: 2000 });
    assert_eq!(scan.step(&vec![event(40, 60)]), ScanStep::Found(event(40, 60)));
}

#[test]
fn scan_reaching_genesis_is_not_attested() {
    let mut scan = CommitmentScan::new(50, 300);
    assert_eq!((scan.start, scan.end), (0, 300));
    assert_eq!(scan.step(&vec![event(0, 50)]), ScanStep::NotYetAttested);
}

#[test]
fn commitment_slot_uses_event_nonce() {
    let e = event(0, 1);
    assert_eq!(
        commitment_slot(&e),
        hana::blobstream::calculate_mapping_slot(254, &[0x09; 32])
    );
}

#[test]
fn assembly_refuses_unverified_witnesses() {
    let result = assemble_blobstream_proof(
        42,
        [0x01; 32],
        &event(0, 100),
        vec![1, 2, 3],
        vec![4, 5, 6],
        [0x02; 32],
        vec![vec![7]],
    );
    assert_eq!(result.unwrap_err(), ProofError::ShareProof);
}

#[test]
fn host_does_not_store_unverified_payload() {
    let proof = BlobstreamProof::new(
        [0x01; 32],
        [0x02; 32],
        vec![],
        vec![],
        [0x03; 32],
        [0x04; 32],
        vec![],
    );
    assert_eq!(
        CelestiaChainHintHandler::celestia_preimage(42, &[0u8; 32], vec![0xDE, 0xAD], proof),
        Err(ProofError::ShareProof)
    );
}
