//! Verification of Celestia inclusion proofs, as provided by `celestia_types`.
//!
//! Proofs travel through the oracle in their bincode encoding; each check
//! decodes the proof and runs the crate's verifier on it. A proof that does
//! not decode is rejected.
use vstd::prelude::*;

verus! {

/// Whether the bincode bytes `proof` decode to a `ShareProof` whose shares
/// are proven under `data_root`.
pub uninterp spec fn share_proof_accepts(proof: Seq<u8>, data_root: Seq<u8>) -> bool;

/// Whether the bincode bytes `proof` decode to a `MerkleProof` that proves
/// `leaf` under `root`.
pub uninterp spec fn merkle_proof_accepts(proof: Seq<u8>, leaf: Seq<u8>, root: Seq<u8>) -> bool;

/// Relies on `bincode::deserialize::<celestia_types::ShareProof>` and
/// `ShareProof::verify` against the SHA-256 data root: the verdict depends
/// on the bytes and the root alone. Each row's namespace proof goes through
/// `celestia_types::nmt::NamespaceProof::verify_range`, which rejects nodes
/// out of namespace order rather than letting `nmt_rs` panic on them.
#[verifier::external_body]
pub(crate) fn verify_share_proof(proof: &[u8], data_root: &[u8; 32]) -> (r: bool)
    ensures
        r == share_proof_accepts(proof@, data_root@),
{
    match bincode::deserialize::<celestia_types::ShareProof>(proof) {
        Ok(p) => p.verify(celestia_types::hash::Hash::Sha256(*data_root)).is_ok(),
        Err(_) => false,
    }
}

/// Relies on `bincode::deserialize::<celestia_types::MerkleProof>` and
/// `MerkleProof::verify`: the verdict depends on the bytes, the leaf and the
/// root alone.
#[verifier::external_body]
pub(crate) fn verify_merkle_proof(proof: &[u8], leaf: &[u8], root: &[u8; 32]) -> (r: bool)
    ensures
        r == merkle_proof_accepts(proof@, leaf@, root@),
{
    match bincode::deserialize::<celestia_types::MerkleProof>(proof) {
        Ok(p) => p.verify(leaf, *root).is_ok(),
        Err(_) => false,
    }
}

} // verus!

verus! {

/// The blob that the shares of the bincode share proof `proof` spell, when
/// they start a blob and hold all of it: its data and its commitment.
pub uninterp spec fn blob_of_proven_shares(proof: Seq<u8>) -> Option<(Seq<u8>, Seq<u8>)>;

/// Relies on `bincode::deserialize::<celestia_types::ShareProof>`,
/// `celestia_types::Share::from_raw` on each proven share, and
/// `celestia_types::Blob::reconstruct`, which also computes the blob's
/// commitment: the blob depends on the bytes alone.
#[verifier::external_body]
pub(crate) fn blob_from_proof_shares(proof: &[u8]) -> (r: Option<(Vec<u8>, [u8; 32])>)
    ensures
        match blob_of_proven_shares(proof@) {
            Some((d, c)) => r matches Some((v, h)) && v@ == d && h@ == c,
            None => r is None,
        },
{
    let p = bincode::deserialize::<celestia_types::ShareProof>(proof).ok()?;
    let shares = p
        .shares()
        .iter()
        .map(|s| celestia_types::Share::from_raw(s))
        .collect::<Result<Vec<_>, _>>()
        .ok()?;
    celestia_types::Blob::reconstruct(&shares).ok().map(|b| (b.data, *b.commitment.hash()))
}

} // verus!
