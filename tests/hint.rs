use hana::hint::{
    decode_celestia_hint, encode_celestia_hint, preimage_key, HintError, HintWrapper,
};

#[test]
fn celestia_token_parses_when_base_alphabet_refuses_it() {
    assert_eq!(HintWrapper::from_str("celestia-da", false), Ok(HintWrapper::CelestiaDA));
}

#[test]
fn base_hint_is_tried_first() {
    assert_eq!(
        HintWrapper::from_str("l1-block-header", true),
        Ok(HintWrapper::Standard("l1-block-header".to_string()))
    );
}

#[test]
fn unknown_hint_is_refused() {
    assert_eq!(HintWrapper::from_str("celestia", false), Err(HintError::UnknownHint));
    assert_eq!(HintWrapper::from_str("", false), Err(HintError::UnknownHint));
}

#[test]
fn hint_text_round_trip() {
    let hints = [
        (HintWrapper::CelestiaDA, false),
        (HintWrapper::Standard("l2-code".to_string()), true),
        (HintWrapper::Standard("l1-blob".to_string()), true),
    ];
    for (hint, is_base) in hints {
        let text = hint.to_string();
        assert_eq!(HintWrapper::from_str(&text, is_base), Ok(hint));
    }
    assert_eq!(HintWrapper::CelestiaDA.to_string(), "celestia-da");
}

#[test]
fn celestia_hint_payload_layout() {
    let payload = encode_celestia_hint(42, &[0x11; 32]);
    let mut expected = 42u64.to_le_bytes().to_vec();
    expected.extend([0x11; 32]);
    assert_eq!(payload, expected);
    assert_eq!(decode_celestia_hint(&payload), Ok((42, [0x11; 32])));
}

#[test]
fn celestia_hint_payload_must_be_40_bytes() {
    assert_eq!(decode_celestia_hint(&[0u8; 32]), Err(HintError::InvalidPayloadLength));
    assert_eq!(decode_celestia_hint(&[0u8; 41]), Err(HintError::InvalidPayloadLength));
}

#[test]
fn preimage_key_is_global_generic_keccak() {
    let payload = encode_celestia_hint(42, &[0x11; 32]);
    let digest = alloy_primitives::keccak256(&payload).0;
    let key = preimage_key(&payload);
    assert_eq!(key[0], 3);
    assert_eq!(&key[1..], &digest[1..]);
    assert_ne!(key, digest);
}
