//! Guest-side acceptance of an oracle payload: the payload must decode, its
//! proofs must hold, and its blob must be the data of the proven shares
//! before it is handed to derivation.
use crate::blobstream::{
    commitment_stored, data_root_tuple, encode_data_root_tuple, verify_data_commitment_storage,
    ProofError,
};
use crate::payload::{
    decode_payload, lemma_payload_round_trip, payload_bytes, BlobstreamProof, OraclePayload,
    PayloadView, ProofView,
};
use crate::proofs::{
    blob_from_proof_shares, blob_of_proven_shares, merkle_proof_accepts, share_proof_accepts,
    verify_merkle_proof, verify_share_proof,
};
use crate::wire::{bytes_equal, words_equal};
use vstd::prelude::*;

verus! {

/// Why the guest refused a payload.
#[derive(Debug, Clone, Copy, PartialEq, Eq, Structural)]
pub enum OracleError {
    /// The preimage is not the binary form of a payload.
    PayloadCorrupt,
    /// A proof in the payload does not hold.
    ProofInvalid(ProofError),
}

/// The outcome of checking the proofs for a blob at `height`, in order: the
/// share proof against the data root, the data-root tuple against the data
/// commitment, the data commitment against Blobstream storage.
pub open spec fn proof_verdict(p: ProofView, height: u64) -> Result<(), ProofError> {
    if !share_proof_accepts(p.share_proof, p.data_root) {
        Err(ProofError::ShareProof)
    } else if !merkle_proof_accepts(
        p.data_root_tuple_proof,
        data_root_tuple(height, p.data_root),
        p.data_commitment,
    ) {
        Err(ProofError::DataRootTupleProof)
    } else if !commitment_stored(p.storage_root, p.storage_proof, p.proof_nonce, p.data_commitment) {
        Err(ProofError::StorageProof)
    } else {
        Ok(())
    }
}

/// Every proof for a blob at `height` holds.
pub open spec fn proofs_hold(p: ProofView, height: u64) -> bool {
    &&& share_proof_accepts(p.share_proof, p.data_root)
    &&& merkle_proof_accepts(
        p.data_root_tuple_proof,
        data_root_tuple(height, p.data_root),
        p.data_commitment,
    )
    &&& commitment_stored(p.storage_root, p.storage_proof, p.proof_nonce, p.data_commitment)
}

/// How `blob` stands to the blob that the shares of `share_proof` spell,
/// and to the commitment asked for.
pub open spec fn blob_verdict(blob: Seq<u8>, share_proof: Seq<u8>, commitment: Seq<u8>) -> Result<
    (),
    ProofError,
> {
    match blob_of_proven_shares(share_proof) {
        Some((data, proven)) => if data != blob {
            Err(ProofError::BlobShares)
        } else if proven != commitment {
            Err(ProofError::BlobCommitment)
        } else {
            Ok(())
        },
        None => Err(ProofError::BlobShares),
    }
}

/// Whether `blob` is the data of the proven shares, and their blob has the
/// commitment asked for.
pub open spec fn blob_matches_shares(blob: Seq<u8>, share_proof: Seq<u8>, commitment: Seq<u8>) -> bool {
    blob_of_proven_shares(share_proof) == Some((blob, commitment))
}

/// The outcome of checking a payload for the blob at `height` with
/// `commitment`: its proofs in the order of `proof_verdict`, then its blob
/// against the proven shares and the commitment.
pub open spec fn payload_verdict(p: PayloadView, height: u64, commitment: Seq<u8>) -> Result<
    (),
    ProofError,
> {
    match proof_verdict(p.proofs, height) {
        Err(e) => Err(e),
        Ok(_) => blob_verdict(p.blob, p.proofs.share_proof, commitment),
    }
}

/// Every proof of the payload holds for `height`, its blob is the data of
/// the proven shares, and that blob has `commitment`.
pub open spec fn payload_holds(p: PayloadView, height: u64, commitment: Seq<u8>) -> bool {
    &&& proofs_hold(p.proofs, height)
    &&& blob_matches_shares(p.blob, p.proofs.share_proof, commitment)
}

/// What the guest returns for the preimage `b` of a hint for the blob at
/// `height` with `commitment`.
pub open spec fn guest_outcome(b: Seq<u8>, height: u64, commitment: Seq<u8>) -> Result<
    Seq<u8>,
    OracleError,
> {
    match decode_payload(b) {
        None => Err(OracleError::PayloadCorrupt),
        Some(p) => match payload_verdict(p, height, commitment) {
            Ok(_) => Ok(p.blob),
            Err(e) => Err(OracleError::ProofInvalid(e)),
        },
    }
}

/// Checks that `blob` is the data that the shares of `share_proof` spell,
/// and that the blob they spell has `commitment`.
pub fn verify_blob_matches_shares(blob: &[u8], share_proof: &[u8], commitment: &[u8; 32]) -> (r:
    Result<(), ProofError>)
    ensures
        r == blob_verdict(blob@, share_proof@, commitment@),
        r is Ok <==> blob_matches_shares(blob@, share_proof@, commitment@),
{
    match blob_from_proof_shares(share_proof) {
        Some((data, proven)) => if !bytes_equal(data.as_slice(), blob) {
            Err(ProofError::BlobShares)
        } else if !words_equal(&proven, commitment) {
            Err(ProofError::BlobCommitment)
        } else {
            Ok(())
        },
        None => Err(ProofError::BlobShares),
    }
}

/// Checks that the share proof proves the blob's shares under the data root.
pub fn verify_blob_shares(share_proof: &[u8], data_root: &[u8; 32]) -> (r: Result<(), ProofError>)
    ensures
        r is Ok <==> share_proof_accepts(share_proof@, data_root@),
        r is Err ==> r == Err::<(), ProofError>(ProofError::ShareProof),
{
    if verify_share_proof(share_proof, data_root) {
        Ok(())
    } else {
        Err(ProofError::ShareProof)
    }
}

/// Checks that the data-root tuple of `height` is proven under the data
/// commitment.
pub fn verify_data_root_tuple(
    data_root_tuple_proof: &[u8],
    height: u64,
    data_root: &[u8; 32],
    data_commitment: &[u8; 32],
) -> (r: Result<(), ProofError>)
    ensures
        r is Ok <==> merkle_proof_accepts(
            data_root_tuple_proof@,
            data_root_tuple(height, data_root@),
            data_commitment@,
        ),
        r is Err ==> r == Err::<(), ProofError>(ProofError::DataRootTupleProof),
{
    let leaf = encode_data_root_tuple(height, data_root);
    if verify_merkle_proof(data_root_tuple_proof, leaf.as_slice(), data_commitment) {
        Ok(())
    } else {
        Err(ProofError::DataRootTupleProof)
    }
}

/// Checks the proofs, in the order of `proof_verdict`.
fn check_proofs(
    height: u64,
    data_root: &[u8; 32],
    data_commitment: &[u8; 32],
    data_root_tuple_proof: &Vec<u8>,
    share_proof: &Vec<u8>,
    proof_nonce: &[u8; 32],
    storage_root: &[u8; 32],
    storage_proof: &Vec<Vec<u8>>,
    Ghost(p): Ghost<ProofView>,
) -> (r: Result<(), ProofError>)
    requires
        p.data_root == data_root@,
        p.data_commitment == data_commitment@,
        p.data_root_tuple_proof == data_root_tuple_proof@,
        p.share_proof == share_proof@,
        p.proof_nonce == proof_nonce@,
        p.storage_root == storage_root@,
        p.storage_proof == crate::wire::byte_strings(storage_proof@),
    ensures
        r == proof_verdict(p, height),
{
    match verify_blob_shares(share_proof.as_slice(), data_root) {
        Ok(()) => {},
        Err(_) => return Err(ProofError::ShareProof),
    }
    match verify_data_root_tuple(data_root_tuple_proof.as_slice(), height, data_root, data_commitment) {
        Ok(()) => {},
        Err(_) => return Err(ProofError::DataRootTupleProof),
    }
    let r = verify_data_commitment_storage(storage_root, storage_proof, proof_nonce, data_commitment);
    match r {
        Ok(()) => Ok(()),
        Err(_) => Err(ProofError::StorageProof),
    }
}

impl BlobstreamProof {
    /// Checks every proof for a blob at `height`.
    pub fn verify(&self, height: u64) -> (r: Result<(), ProofError>)
        ensures
            r == proof_verdict(self@, height),
            r is Ok <==> proofs_hold(self@, height),
    {
        check_proofs(
            height,
            &self.data_root,
            &self.data_commitment,
            &self.data_root_tuple_proof,
            &self.share_proof,
            &self.proof_nonce,
            &self.storage_root,
            &self.storage_proof,
            Ghost(self@),
        )
    }
}

impl OraclePayload {
    /// Checks every proof in the payload for the blob at `height` with
    /// `commitment`, then the blob against the proven shares and the
    /// commitment.
    pub fn verify(&self, height: u64, commitment: &[u8; 32]) -> (r: Result<(), ProofError>)
        ensures
            r == payload_verdict(self@, height, commitment@),
            r is Ok <==> payload_holds(self@, height, commitment@),
    {
        match check_proofs(
            height,
            &self.data_root,
            &self.data_commitment,
            &self.data_root_tuple_proof,
            &self.share_proof,
            &self.proof_nonce,
            &self.storage_root,
            &self.storage_proof,
            Ghost(self@.proofs),
        ) {
            Ok(()) => {},
            Err(e) => return Err(e),
        }
        verify_blob_matches_shares(self.blob.as_slice(), self.share_proof.as_slice(), commitment)
    }
}

/// Accepts the preimage served for a `celestia-da` hint for the blob at
/// `height` with `commitment`: decodes the payload, checks every proof in
/// it, checks that its blob is the proven one and has that commitment, and
/// returns the blob.
pub fn blob_from_preimage(preimage: &[u8], height: u64, commitment: &[u8; 32]) -> (r: Result<
    Vec<u8>,
    OracleError,
>)
    ensures
        match guest_outcome(preimage@, height, commitment@) {
            Ok(blob) => r matches Ok(v) && v@ == blob,
            Err(e) => r == Err::<Vec<u8>, OracleError>(e),
        },
        r is Ok ==> (decode_payload(preimage@) matches Some(p) && payload_holds(
            p,
            height,
            commitment@,
        )),
{
    let payload = match OraclePayload::from_bytes(preimage) {
        Ok(p) => p,
        Err(_) => return Err(OracleError::PayloadCorrupt),
    };
    match payload.verify(height, commitment) {
        Ok(()) => Ok(payload.blob),
        Err(e) => Err(OracleError::ProofInvalid(e)),
    }
}

/// A payload that holds for `height` (as the host checks before it serves
/// one) is accepted by the guest from its binary form, which hands back the
/// payload's blob.
pub proof fn lemma_served_payload_accepted(p: PayloadView, height: u64, commitment: Seq<u8>)
    requires
        p.wf(),
        payload_holds(p, height, commitment),
    ensures
        decode_payload(payload_bytes(p)) == Some(p),
        guest_outcome(payload_bytes(p), height, commitment) == Ok::<Seq<u8>, OracleError>(p.blob),
{
    lemma_payload_round_trip(p);
}

} // verus!
