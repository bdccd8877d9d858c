//! Celestia data-availability support for a fault-proof rollup derivation
//! pipeline: Blobstream proof primitives, the oracle payload codec, the hint
//! alphabet, the guest-side payload checks, the data-source adapter and the
//! host-side witness rules.
pub mod wire;
pub mod codec;
pub mod keccak;
pub mod proofs;
pub mod trie_shape;
pub mod blobstream;
pub mod payload;
pub mod provider;
pub mod hint;
pub mod source;
pub mod host;
pub mod cfg;
