use hana::hint::{encode_celestia_hint, preimage_key, HintWrapper};
use hana::host::{CelestiaChainHintHandler, HintRoute};
use hana::source::{parse_pointer, CelestiaDADataSource, CelestiaDASource, SourceError};

fn pointer(version: u8, height: u64, commitment: [u8; 32]) -> Vec<u8> {
    let mut p = vec![0x01, 0x00, version];
    p.extend(height.to_le_bytes());
    p.extend(commitment);
    p
}

#[test]
fn celestia_pointer_names_height_and_commitment() {
    let p = pointer(0x0c, 42, [0x11; 32]);
    assert_eq!(p.len(), 43);
    assert_eq!(parse_pointer(&p), Ok((42, [0x11; 32])));
}

#[test]
fn happy_path_pointer_to_hint() {
    let source = CelestiaDADataSource::new(CelestiaDASource::new());
    let (height, commitment) = source.route(&pointer(0x0c, 42, [0x11; 32])).unwrap();
    let payload = encode_celestia_hint(height, &commitment);
    let mut expected = 42u64.to_le_bytes().to_vec();
    expected.extend([0x11; 32]);
    assert_eq!(payload, expected);
    let route = CelestiaChainHintHandler::route(&HintWrapper::CelestiaDA, &payload).unwrap();
    assert_eq!(
        route,
        HintRoute::Celestia { height: 42, commitment: [0x11; 32], key: preimage_key(&payload) }
    );
}

#[test]
fn non_celestia_pointer_is_end_of_source() {
    let source = CelestiaDADataSource::new(CelestiaDASource::new());
    assert_eq!(source.route(&pointer(0x00, 42, [0x11; 32])), Err(SourceError::EndOfSource));
    assert_eq!(parse_pointer(&[0x01, 0x00]), Err(SourceError::EndOfSource));
    assert_eq!(parse_pointer(&[]), Err(SourceError::EndOfSource));
}

#[test]
fn short_celestia_pointer_is_malformed() {
    let p = pointer(0x0c, 42, [0x11; 32]);
    assert_eq!(parse_pointer(&p[..42]), Err(SourceError::MalformedPointer));
    assert_eq!(parse_pointer(&p[..3]), Err(SourceError::MalformedPointer));
}

#[test]
fn source_hands_out_fetched_blob_once() {
    let mut source = CelestiaDASource::new();
    assert!(source.needs_fetch());
    assert_eq!(source.next(Some(vec![0xDE, 0xAD, 0xBE, 0xEF])), Ok(vec![0xDE, 0xAD, 0xBE, 0xEF]));
    assert!(source.open);
    assert!(!source.needs_fetch());
    assert_eq!(source.next(Some(vec![1])), Err(SourceError::Eof));
    assert!(source.data.is_empty());
}

#[test]
fn failed_fetch_gives_eof() {
    let mut source = CelestiaDASource::new();
    assert_eq!(source.next(None), Err(SourceError::Eof));
    assert!(source.open);
}

#[test]
fn clear_reopens_the_source() {
    let p = pointer(0x0c, 42, [0x11; 32]);
    let mut adapter = CelestiaDADataSource::new(CelestiaDASource::new());
    assert_eq!(adapter.next(&p, Some(vec![1, 2])), Ok(vec![1, 2]));
    adapter.clear();
    assert!(!adapter.celestia_source.open);
    assert!(adapter.celestia_source.data.is_empty());
    assert_eq!(adapter.next(&p, Some(vec![3])), Ok(vec![3]));
}

#[test]
fn short_celestia_hint_is_refused() {
    assert_eq!(
        CelestiaChainHintHandler::route(&HintWrapper::CelestiaDA, &[0u8; 32]),
        Err(hana::hint::HintError::InvalidPayloadLength)
    );
}

#[test]
fn standard_hint_is_delegated() {
    assert_eq!(
        CelestiaChainHintHandler::route(&HintWrapper::Standard("l1-blob".to_string()), &[1, 2]),
        Ok(HintRoute::Standard("l1-blob".to_string()))
    );
}

#[test]
fn non_celestia_pointer_leaves_source_untouched() {
    let mut adapter = CelestiaDADataSource::new(CelestiaDASource::new());
    assert_eq!(
        adapter.next(&pointer(0x00, 42, [0x11; 32]), Some(vec![9])),
        Err(SourceError::EndOfSource)
    );
    assert!(!adapter.celestia_source.open);
    assert!(adapter.celestia_source.data.is_empty());
    assert_eq!(
        adapter.next(&pointer(0x0c, 42, [0x11; 32]), Some(vec![0xDE, 0xAD, 0xBE, 0xEF])),
        Ok(vec![0xDE, 0xAD, 0xBE, 0xEF])
    );
}
