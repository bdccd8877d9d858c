use hana::cfg::{CelestiaCfg, CelestiaChainHost, ChainId, ConfigError};

fn address(s: &str) -> [u8; 20] {
    let v = alloy_primitives::hex::decode(s).unwrap();
    let mut out = [0u8; 20];
    out.copy_from_slice(&v);
    out
}

#[test]
fn unknown_chain_id_is_none() {
    assert_eq!(ChainId::from_u64(999), None);
}

#[test]
fn mainnet_blobstream_address() {
    let chain = ChainId::from_u64(1).unwrap();
    assert_eq!(chain, ChainId::EthereumMainnet);
    assert_eq!(
        chain.blostream_address(),
        address("0x7Cf3876F681Dbb6EdA8f6FfC45D66B996Df08fAe")
    );
}

#[test]
fn every_known_chain_has_its_deployment() {
    let cases = [
        (1u64, "0x7Cf3876F681Dbb6EdA8f6FfC45D66B996Df08fAe"),
        (42161, "0xA83ca7775Bc2889825BcDeDfFa5b758cf69e8794"),
        (8453, "0xA83ca7775Bc2889825BcDeDfFa5b758cf69e8794"),
        (11155111, "0xF0c6429ebAB2e7DC6e05DaFB61128bE21f13cb1e"),
        (421614, "0xc3e209eb245Fd59c8586777b499d6A665DF3ABD2"),
        (84532, "0xc3e209eb245Fd59c8586777b499d6A665DF3ABD2"),
    ];
    for (id, expected) in cases {
        assert_eq!(CelestiaChainHost::blobstream_address(id), Ok(address(expected)));
    }
    assert_eq!(CelestiaChainHost::blobstream_address(10), Err(ConfigError::UnknownChain));
}

fn online_host() -> CelestiaChainHost {
    CelestiaChainHost {
        l1_node_address: Some("http://l1".to_string()),
        l2_node_address: Some("http://l2".to_string()),
        l1_beacon_address: Some("http://beacon".to_string()),
        data_dir: None,
        server: false,
        celestia_args: CelestiaCfg {
            celestia_connection: Some("http://celestia".to_string()),
            auth_token: Some("token".to_string()),
            namespace: Some("0xdeadbeef".to_string()),
            blobstream_address: None,
        },
    }
}

#[test]
fn offline_needs_a_store_and_no_nodes() {
    let mut host = CelestiaChainHost::default();
    assert!(!host.is_offline());
    host.data_dir = Some("/tmp/store".to_string());
    assert!(host.is_offline());
    host.l2_node_address = Some("http://l2".to_string());
    assert!(!host.is_offline());
    assert!(!online_host().is_offline());
}

#[test]
fn celestia_settings_from_full_options() {
    let settings = online_host().celestia_settings().unwrap();
    assert_eq!(settings.connection, "http://celestia");
    assert_eq!(settings.auth_token, Some("token".to_string()));
    let mut expected = vec![0u8; 25];
    expected.extend([0xde, 0xad, 0xbe, 0xef]);
    assert_eq!(settings.namespace, expected);
}

#[test]
fn celestia_settings_report_the_first_missing_option() {
    let mut host = online_host();
    host.celestia_args.namespace = None;
    assert_eq!(host.celestia_settings().unwrap_err(), ConfigError::MissingNamespace);
    host.celestia_args.celestia_connection = None;
    assert_eq!(host.celestia_settings().unwrap_err(), ConfigError::MissingCelestiaConnection);
    host.l2_node_address = None;
    assert_eq!(host.celestia_settings().unwrap_err(), ConfigError::MissingL2Node);
    host.l1_beacon_address = None;
    assert_eq!(host.celestia_settings().unwrap_err(), ConfigError::MissingBeacon);
    host.l1_node_address = None;
    assert_eq!(host.celestia_settings().unwrap_err(), ConfigError::MissingL1Node);
}

#[test]
fn namespace_must_be_hex() {
    let mut host = online_host();
    host.celestia_args.namespace = Some("not-hex".to_string());
    assert_eq!(host.celestia_settings().unwrap_err(), ConfigError::InvalidNamespace);
    host.celestia_args.namespace = Some("abc".to_string());
    assert_eq!(host.celestia_settings().unwrap_err(), ConfigError::InvalidNamespace);
    host.celestia_args.namespace = Some("0A0b".to_string());
    let mut expected = vec![0u8; 27];
    expected.extend([0x0a, 0x0b]);
    assert_eq!(host.celestia_settings().unwrap().namespace, expected);
}

#[test]
fn namespace_must_be_version_zero() {
    let mut host = online_host();
    host.celestia_args.namespace = Some("0102030405060708090a0b".to_string());
    assert_eq!(host.celestia_settings().unwrap_err(), ConfigError::InvalidNamespace);
    let mut id = "00".repeat(18);
    id.push_str("0102030405060708090a");
    host.celestia_args.namespace = Some(id);
    let mut expected = vec![0u8; 19];
    expected.extend([1, 2, 3, 4, 5, 6, 7, 8, 9, 10]);
    assert_eq!(host.celestia_settings().unwrap().namespace, expected);
    let mut bad = "00".repeat(17);
    bad.push_str("01");
    bad.push_str("0102030405060708090a");
    host.celestia_args.namespace = Some(bad);
    assert_eq!(host.celestia_settings().unwrap_err(), ConfigError::InvalidNamespace);
}

#[test]
fn explicit_blobstream_address_wins() {
    let mut host = online_host();
    assert_eq!(
        host.resolve_blobstream_address(1),
        Ok(address("0x7Cf3876F681Dbb6EdA8f6FfC45D66B996Df08fAe"))
    );
    assert_eq!(host.resolve_blobstream_address(999), Err(ConfigError::UnknownChain));
    host.celestia_args.blobstream_address =
        Some("0x1111111111111111111111111111111111111111".to_string());
    assert_eq!(host.resolve_blobstream_address(999), Ok([0x11; 20]));
    assert_eq!(host.resolve_blobstream_address(1), Ok([0x11; 20]));
    host.celestia_args.blobstream_address = Some("0x1111".to_string());
    assert_eq!(host.resolve_blobstream_address(1), Err(ConfigError::InvalidBlobstreamAddress));
    host.celestia_args.blobstream_address = Some("zz".to_string());
    assert_eq!(host.resolve_blobstream_address(1), Err(ConfigError::InvalidBlobstreamAddress));
}
