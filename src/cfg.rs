//! Host configuration: the Celestia connection options and the registry of
//! settlement chains with a deployed Blobstream contract.
use crate::wire::zeros;
use vstd::prelude::*;

verus! {

/// Blobstream at `0x7Cf3876F681Dbb6EdA8f6FfC45D66B996Df08fAe`.
pub const MAINNET_BLOBSTREAM: [u8; 20] = [0x7c, 0xf3, 0x87, 0x6f, 0x68, 0x1d, 0xbb, 0x6e, 0xda, 0x8f, 0x6f, 0xfc, 0x45, 0xd6, 0x6b, 0x99, 0x6d, 0xf0, 0x8f, 0xae];

/// Blobstream at `0xA83ca7775Bc2889825BcDeDfFa5b758cf69e8794`.
pub const ARBITRUM_BASE_BLOBSTREAM: [u8; 20] = [0xa8, 0x3c, 0xa7, 0x77, 0x5b, 0xc2, 0x88, 0x98, 0x25, 0xbc, 0xde, 0xdf, 0xfa, 0x5b, 0x75, 0x8c, 0xf6, 0x9e, 0x87, 0x94];

/// Blobstream at `0xF0c6429ebAB2e7DC6e05DaFB61128bE21f13cb1e`.
pub const SEPOLIA_BLOBSTREAM: [u8; 20] = [0xf0, 0xc6, 0x42, 0x9e, 0xba, 0xb2, 0xe7, 0xdc, 0x6e, 0x05, 0xda, 0xfb, 0x61, 0x12, 0x8b, 0xe2, 0x1f, 0x13, 0xcb, 0x1e];

/// Blobstream at `0xc3e209eb245Fd59c8586777b499d6A665DF3ABD2`.
pub const ARBITRUM_BASE_SEPOLIA_BLOBSTREAM: [u8; 20] = [0xc3, 0xe2, 0x09, 0xeb, 0x24, 0x5f, 0xd5, 0x9c, 0x85, 0x86, 0x77, 0x7b, 0x49, 0x9d, 0x6a, 0x66, 0x5d, 0xf3, 0xab, 0xd2];

/// Settlement chains with a known Blobstream deployment.
#[derive(Debug, Clone, Copy, PartialEq, Eq, Hash, Structural)]
pub enum ChainId {
    EthereumMainnet,
    ArbitrumOne,
    Base,
    Sepolia,
    ArbitrumSepolia,
    BaseSepolia,
}

/// The chain with the given numeric identifier, if it is a known one.
pub open spec fn chain_of_id(id: u64) -> Option<ChainId> {
    if id == 1 {
        Some(ChainId::EthereumMainnet)
    } else if id == 42161 {
        Some(ChainId::ArbitrumOne)
    } else if id == 8453 {
        Some(ChainId::Base)
    } else if id == 11155111 {
        Some(ChainId::Sepolia)
    } else if id == 421614 {
        Some(ChainId::ArbitrumSepolia)
    } else if id == 84532 {
        Some(ChainId::BaseSepolia)
    } else {
        None
    }
}

impl ChainId {
    /// Looks up a chain by its numeric identifier.
    pub fn from_u64(id: u64) -> (r: Option<ChainId>)
        ensures
            r == chain_of_id(id),
    {
        match id {
            1 => Some(ChainId::EthereumMainnet),
            42161 => Some(ChainId::ArbitrumOne),
            8453 => Some(ChainId::Base),
            11155111 => Some(ChainId::Sepolia),
            421614 => Some(ChainId::ArbitrumSepolia),
            84532 => Some(ChainId::BaseSepolia),
            _ => None,
        }
    }

    /// The address of the Blobstream contract deployed on the chain.
    pub fn blostream_address(&self) -> (r: [u8; 20])
        ensures
            r == blobstream_address_of(*self),
    {
        match self {
            ChainId::EthereumMainnet => MAINNET_BLOBSTREAM,
            ChainId::ArbitrumOne => ARBITRUM_BASE_BLOBSTREAM,
            ChainId::Base => ARBITRUM_BASE_BLOBSTREAM,
            ChainId::Sepolia => SEPOLIA_BLOBSTREAM,
            ChainId::ArbitrumSepolia => ARBITRUM_BASE_SEPOLIA_BLOBSTREAM,
            ChainId::BaseSepolia => ARBITRUM_BASE_SEPOLIA_BLOBSTREAM,
        }
    }
}

/// The Blobstream deployment of each known chain.
pub open spec fn blobstream_address_of(chain: ChainId) -> [u8; 20] {
    match chain {
        ChainId::EthereumMainnet => MAINNET_BLOBSTREAM,
        ChainId::ArbitrumOne => ARBITRUM_BASE_BLOBSTREAM,
        ChainId::Base => ARBITRUM_BASE_BLOBSTREAM,
        ChainId::Sepolia => SEPOLIA_BLOBSTREAM,
        ChainId::ArbitrumSepolia => ARBITRUM_BASE_SEPOLIA_BLOBSTREAM,
        ChainId::BaseSepolia => ARBITRUM_BASE_SEPOLIA_BLOBSTREAM,
    }
}

/// Options for reaching the Celestia network.
#[derive(Debug, Clone, Default)]
pub struct CelestiaCfg {
    /// JSON-RPC endpoint of the Celestia node.
    pub celestia_connection: Option<String>,
    /// Bearer token for the Celestia node connection.
    pub auth_token: Option<String>,
    /// Namespace to read blobs from, as hex.
    pub namespace: Option<String>,
    /// Blobstream contract to read, as hex; when absent it follows from the
    /// settlement chain.
    pub blobstream_address: Option<String>,
}

} // verus!

verus! {

/// The value of a hexadecimal digit.
pub open spec fn hex_digit(c: char) -> Option<u8> {
    if '0' <= c && c <= '9' {
        Some((c as u32 - '0' as u32) as u8)
    } else if 'a' <= c && c <= 'f' {
        Some((c as u32 - 'a' as u32 + 10) as u8)
    } else if 'A' <= c && c <= 'F' {
        Some((c as u32 - 'A' as u32 + 10) as u8)
    } else {
        None
    }
}

/// The bytes that a string of hexadecimal digit pairs spells.
pub open spec fn hex_digits(s: Seq<char>) -> Option<Seq<u8>> {
    if s.len() % 2 == 0 && forall|i: int| 0 <= i < s.len() ==> (#[trigger] hex_digit(s[i])) is Some {
        Some(
            Seq::new(
                s.len() / 2,
                |i: int| (hex_digit(s[2 * i])->0 * 16 + hex_digit(s[2 * i + 1])->0) as u8,
            ),
        )
    } else {
        None
    }
}

/// The bytes that a hex string spells, with or without a `0x` prefix.
pub open spec fn hex_string(s: Seq<char>) -> Option<Seq<u8>> {
    if s.len() >= 2 && s[0] == '0' && (s[1] == 'x' || s[1] == 'X') {
        hex_digits(s.subrange(2, s.len() as int))
    } else {
        hex_digits(s)
    }
}

/// Relies on `alloy_primitives::hex::decode`: an optional `0x` prefix, then
/// an even number of hexadecimal digits of either case.
#[verifier::external_body]
fn decode_hex(s: &str) -> (r: Option<Vec<u8>>)
    ensures
        match hex_string(s@) {
            Some(b) => r matches Some(v) && v@ == b,
            None => r is None,
        },
{
    alloy_primitives::hex::decode(s).ok()
}

/// The 29-byte version-0 namespace of an identifier: at most 10 bytes, or
/// 28 bytes of which the first 18 are zero, right-aligned behind zeros.
pub open spec fn namespace_v0(id: Seq<u8>) -> Option<Seq<u8>> {
    if id.len() <= 10 || (id.len() == 28 && forall|i: int| 0 <= i < 18 ==> id[i] == 0) {
        Some(zeros((29 - id.len()) as nat) + id)
    } else {
        None
    }
}

/// Relies on `celestia_types::nmt::Namespace::new_v0` and
/// `Namespace::as_bytes`.
#[verifier::external_body]
fn namespace_v0_bytes(id: &[u8]) -> (r: Option<Vec<u8>>)
    ensures
        match namespace_v0(id@) {
            Some(b) => r matches Some(v) && v@ == b,
            None => r is None,
        },
{
    celestia_types::nmt::Namespace::new_v0(id).ok().map(|n| n.as_bytes().to_vec())
}

/// Why the host cannot start with its configuration.
#[derive(Debug, Clone, Copy, PartialEq, Eq, Structural)]
pub enum ConfigError {
    /// No settlement-chain node address.
    MissingL1Node,
    /// No beacon node address.
    MissingBeacon,
    /// No rollup node address.
    MissingL2Node,
    /// No Celestia node connection.
    MissingCelestiaConnection,
    /// No Celestia namespace.
    MissingNamespace,
    /// The Celestia namespace is not hex, or not a version-0 namespace.
    InvalidNamespace,
    /// The explicit Blobstream address is not 20 bytes of hex.
    InvalidBlobstreamAddress,
    /// The settlement chain has no known Blobstream deployment.
    UnknownChain,
}

/// The host's options that decide how it starts.
#[derive(Debug, Clone, Default)]
pub struct CelestiaChainHost {
    /// Settlement-chain node address.
    pub l1_node_address: Option<String>,
    /// Rollup node address.
    pub l2_node_address: Option<String>,
    /// Beacon node address.
    pub l1_beacon_address: Option<String>,
    /// Directory of the preimage store.
    pub data_dir: Option<String>,
    /// Whether to serve over pre-opened channels instead of running the
    /// guest in process.
    pub server: bool,
    /// Celestia options.
    pub celestia_args: CelestiaCfg,
}

/// What the host needs to reach Celestia, once the options are checked.
#[derive(Debug, Clone)]
pub struct CelestiaSettings {
    /// JSON-RPC endpoint of the Celestia node.
    pub connection: String,
    /// Bearer token for the Celestia node.
    pub auth_token: Option<String>,
    /// The 29-byte namespace.
    pub namespace: Vec<u8>,
}

impl CelestiaChainHost {
    /// Whether the host serves preimages from its store alone, with no node
    /// to ask.
    pub fn is_offline(&self) -> (r: bool)
        ensures
            r == (self.l1_node_address is None && self.l2_node_address is None
                && self.l1_beacon_address is None && self.data_dir is Some),
    {
        self.l1_node_address.is_none() && self.l2_node_address.is_none()
            && self.l1_beacon_address.is_none() && self.data_dir.is_some()
    }

    /// Checks the options that the online providers need, in order: the
    /// settlement node, the beacon node, the rollup node, the Celestia
    /// connection, then the namespace, which must be hex and a version-0
    /// namespace identifier.
    pub fn celestia_settings(&self) -> (r: Result<CelestiaSettings, ConfigError>)
        ensures
            self.l1_node_address is None ==> r == Err::<CelestiaSettings, ConfigError>(
                ConfigError::MissingL1Node,
            ),
            self.l1_node_address is Some && self.l1_beacon_address is None ==> r == Err::<
                CelestiaSettings,
                ConfigError,
            >(ConfigError::MissingBeacon),
            self.l1_node_address is Some && self.l1_beacon_address is Some
                && self.l2_node_address is None ==> r == Err::<CelestiaSettings, ConfigError>(
                ConfigError::MissingL2Node,
            ),
            self.l1_node_address is Some && self.l1_beacon_address is Some
                && self.l2_node_address is Some && self.celestia_args.celestia_connection is None
                ==> r == Err::<CelestiaSettings, ConfigError>(
                ConfigError::MissingCelestiaConnection,
            ),
            self.l1_node_address is Some && self.l1_beacon_address is Some
                && self.l2_node_address is Some && self.celestia_args.celestia_connection is Some
                && self.celestia_args.namespace is None ==> r == Err::<CelestiaSettings, ConfigError>(
                ConfigError::MissingNamespace,
            ),
            self.l1_node_address is Some && self.l1_beacon_address is Some
                && self.l2_node_address is Some && self.celestia_args.celestia_connection is Some
                && self.celestia_args.namespace is Some ==> match hex_string(
                self.celestia_args.namespace->0@,
            ) {
                Some(id) => match namespace_v0(id) {
                    Some(ns) => r matches Ok(c) && c.namespace@ == ns && c.connection@
                        == self.celestia_args.celestia_connection->0@ && c.auth_token
                        == self.celestia_args.auth_token,
                    None => r == Err::<CelestiaSettings, ConfigError>(
                        ConfigError::InvalidNamespace,
                    ),
                },
                None => r == Err::<CelestiaSettings, ConfigError>(ConfigError::InvalidNamespace),
            },
    {
        if self.l1_node_address.is_none() {
            return Err(ConfigError::MissingL1Node);
        }
        if self.l1_beacon_address.is_none() {
            return Err(ConfigError::MissingBeacon);
        }
        if self.l2_node_address.is_none() {
            return Err(ConfigError::MissingL2Node);
        }
        let connection = match &self.celestia_args.celestia_connection {
            Some(c) => c.clone(),
            None => return Err(ConfigError::MissingCelestiaConnection),
        };
        let namespace = match &self.celestia_args.namespace {
            Some(n) => n,
            None => return Err(ConfigError::MissingNamespace),
        };
        let namespace_id = match decode_hex(namespace.as_str()) {
            Some(id) => id,
            None => return Err(ConfigError::InvalidNamespace),
        };
        let namespace = match namespace_v0_bytes(namespace_id.as_slice()) {
            Some(ns) => ns,
            None => return Err(ConfigError::InvalidNamespace),
        };
        let auth_token = match &self.celestia_args.auth_token {
            Some(t) => Some(t.clone()),
            None => None,
        };
        Ok(CelestiaSettings { connection, auth_token, namespace })
    }

    /// The Blobstream contract to read: the explicit address when one is
    /// given, else the deployment on the settlement chain `chain_id`.
    pub fn resolve_blobstream_address(&self, chain_id: u64) -> (r: Result<[u8; 20], ConfigError>)
        ensures
            match self.celestia_args.blobstream_address {
                Some(s) => match hex_string(s@) {
                    Some(b) => if b.len() == 20 {
                        r matches Ok(a) && a@ == b
                    } else {
                        r == Err::<[u8; 20], ConfigError>(ConfigError::InvalidBlobstreamAddress)
                    },
                    None => r == Err::<[u8; 20], ConfigError>(ConfigError::InvalidBlobstreamAddress),
                },
                None => match chain_of_id(chain_id) {
                    Some(c) => r == Ok::<[u8; 20], ConfigError>(blobstream_address_of(c)),
                    None => r == Err::<[u8; 20], ConfigError>(ConfigError::UnknownChain),
                },
            },
    {
        match &self.celestia_args.blobstream_address {
            Some(s) => {
                let bytes = match decode_hex(s.as_str()) {
                    Some(b) => b,
                    None => return Err(ConfigError::InvalidBlobstreamAddress),
                };
                if bytes.len() != 20 {
                    return Err(ConfigError::InvalidBlobstreamAddress);
                }
                let mut address = [0u8; 20];
                let mut i: usize = 0;
                while i < 20
                    invariant
                        bytes@.len() == 20,
                        0 <= i <= 20,
                        forall|k: int| 0 <= k < i ==> address@[k] == bytes@[k],
                    decreases 20 - i,
                {
                    address[i] = bytes[i];
                    i = i + 1;
                }
                assert(address@ =~= bytes@);
                Ok(address)
            },
            None => CelestiaChainHost::blobstream_address(chain_id),
        }
    }

    /// The Blobstream contract to read on the settlement chain `chain_id`.
    pub fn blobstream_address(chain_id: u64) -> (r: Result<[u8; 20], ConfigError>)
        ensures
            match chain_of_id(chain_id) {
                Some(c) => r == Ok::<[u8; 20], ConfigError>(blobstream_address_of(c)),
                None => r == Err::<[u8; 20], ConfigError>(ConfigError::UnknownChain),
            },
    {
        match ChainId::from_u64(chain_id) {
            Some(chain) => Ok(chain.blostream_address()),
            None => Err(ConfigError::UnknownChain),
        }
    }
}

} // verus!
