//! The witness bundle that the host serves to the guest through the oracle,
//! and its canonical binary form.
//!
//! Layout: the format byte; the blob behind its length; the data root; the data commitment;
//! the data-root tuple proof and the share proof, each behind its length;
//! the proof nonce as a 32-byte big-endian integer; the storage root; the
//! storage proof nodes behind their count, each behind its length. Lengths
//! and counts are little-endian `u64`. Nothing may follow.
use crate::codec::{
    frame, frame_list, holds_at, lemma_fixed_parsed, lemma_holds_join, lemma_holds_split, lemma_frame_parsed, lemma_list_parsed,
    lemma_parse_fixed, lemma_parse_frame, lemma_parse_list, list_fits, parse_fixed, parse_frame,
    parse_list, push_frame, push_list, read_fixed, read_frame, read_list,
};
use crate::wire::{append_bytes, byte_strings};
use vstd::prelude::*;

verus! {

/// The contents of the Blobstream proofs for one blob.
pub ghost struct ProofView {
    pub data_root: Seq<u8>,
    pub data_commitment: Seq<u8>,
    pub data_root_tuple_proof: Seq<u8>,
    pub share_proof: Seq<u8>,
    pub proof_nonce: Seq<u8>,
    pub storage_root: Seq<u8>,
    pub storage_proof: Seq<Seq<u8>>,
}

/// The contents of an oracle payload.
pub ghost struct PayloadView {
    pub blob: Seq<u8>,
    pub proofs: ProofView,
}

/// The proofs that tie a Celestia blob to the Blobstream contract on the
/// settlement chain.
#[derive(Debug, Clone)]
pub struct BlobstreamProof {
    /// Data root of the Celestia block that holds the blob.
    pub data_root: [u8; 32],
    /// Blobstream commitment over a range of blocks that holds that block.
    pub data_commitment: [u8; 32],
    /// bincode encoding of the `MerkleProof` of the data-root tuple under the
    /// data commitment.
    pub data_root_tuple_proof: Vec<u8>,
    /// bincode encoding of the `ShareProof` of the blob's shares under the
    /// data root.
    pub share_proof: Vec<u8>,
    /// Blobstream proof nonce of the data commitment, big-endian.
    pub proof_nonce: [u8; 32],
    /// Storage root of the Blobstream contract.
    pub storage_root: [u8; 32],
    /// Merkle-Patricia proof nodes for the commitment's storage slot.
    pub storage_proof: Vec<Vec<u8>>,
}

/// A blob and the proofs of its inclusion, as served to the guest.
#[derive(Debug, Clone)]
pub struct OraclePayload {
    /// The blob's bytes.
    pub blob: Vec<u8>,
    /// Data root of the Celestia block that holds the blob.
    pub data_root: [u8; 32],
    /// Blobstream commitment over a range of blocks that holds that block.
    pub data_commitment: [u8; 32],
    /// bincode encoding of the `MerkleProof` of the data-root tuple under the
    /// data commitment.
    pub data_root_tuple_proof: Vec<u8>,
    /// bincode encoding of the `ShareProof` of the blob's shares under the
    /// data root.
    pub share_proof: Vec<u8>,
    /// Blobstream proof nonce of the data commitment, big-endian.
    pub proof_nonce: [u8; 32],
    /// Storage root of the Blobstream contract.
    pub storage_root: [u8; 32],
    /// Merkle-Patricia proof nodes for the commitment's storage slot.
    pub storage_proof: Vec<Vec<u8>>,
}

impl View for BlobstreamProof {
    type V = ProofView;

    open spec fn view(&self) -> ProofView {
        ProofView {
            data_root: self.data_root@,
            data_commitment: self.data_commitment@,
            data_root_tuple_proof: self.data_root_tuple_proof@,
            share_proof: self.share_proof@,
            proof_nonce: self.proof_nonce@,
            storage_root: self.storage_root@,
            storage_proof: byte_strings(self.storage_proof@),
        }
    }
}

impl View for OraclePayload {
    type V = PayloadView;

    open spec fn view(&self) -> PayloadView {
        PayloadView {
            blob: self.blob@,
            proofs: ProofView {
                data_root: self.data_root@,
                data_commitment: self.data_commitment@,
                data_root_tuple_proof: self.data_root_tuple_proof@,
                share_proof: self.share_proof@,
                proof_nonce: self.proof_nonce@,
                storage_root: self.storage_root@,
                storage_proof: byte_strings(self.storage_proof@),
            },
        }
    }
}

impl ProofView {
    /// Fixed fields are 32 bytes long and every length fits its prefix.
    pub open spec fn wf(self) -> bool {
        &&& self.data_root.len() == 32
        &&& self.data_commitment.len() == 32
        &&& self.proof_nonce.len() == 32
        &&& self.storage_root.len() == 32
        &&& self.data_root_tuple_proof.len() <= u64::MAX
        &&& self.share_proof.len() <= u64::MAX
        &&& list_fits(self.storage_proof)
    }
}

impl PayloadView {
    pub open spec fn wf(self) -> bool {
        &&& self.blob.len() <= u64::MAX
        &&& self.proofs.wf()
    }
}

/// The format byte that opens a payload's binary form; a change of the
/// layout takes a new value.
pub const PAYLOAD_FORMAT: u8 = 1;

/// The binary form of the proofs.
pub open spec fn proof_bytes(p: ProofView) -> Seq<u8> {
    p.data_root + p.data_commitment + frame(p.data_root_tuple_proof) + frame(p.share_proof)
        + p.proof_nonce + p.storage_root + frame_list(p.storage_proof)
}

/// The binary form of a payload.
pub open spec fn payload_bytes(p: PayloadView) -> Seq<u8> {
    seq![PAYLOAD_FORMAT] + frame(p.blob) + proof_bytes(p.proofs)
}

/// The proofs encoded at `pos`, and the position after them.
pub open spec fn parse_proofs(b: Seq<u8>, pos: int) -> Option<(ProofView, int)> {
    match parse_fixed(b, pos) {
        Some((data_root, p1)) => match parse_fixed(b, p1) {
            Some((data_commitment, p2)) => match parse_frame(b, p2) {
                Some((data_root_tuple_proof, p3)) => match parse_frame(b, p3) {
                    Some((share_proof, p4)) => match parse_fixed(b, p4) {
                        Some((proof_nonce, p5)) => match parse_fixed(b, p5) {
                            Some((storage_root, p6)) => match parse_list(b, p6) {
                                Some((storage_proof, p7)) => Some(
                                    (
                                        ProofView {
                                            data_root,
                                            data_commitment,
                                            data_root_tuple_proof,
                                            share_proof,
                                            proof_nonce,
                                            storage_root,
                                            storage_proof,
                                        },
                                        p7,
                                    ),
                                ),
                                None => None,
                            },
                            None => None,
                        },
                        None => None,
                    },
                    None => None,
                },
                None => None,
            },
            None => None,
        },
        None => None,
    }
}

/// The proofs that `b` encodes, with nothing after them.
pub open spec fn decode_proofs(b: Seq<u8>) -> Option<ProofView> {
    match parse_proofs(b, 0) {
        Some((p, end)) => if end == b.len() {
            Some(p)
        } else {
            None
        },
        None => None,
    }
}

/// The payload that `b` encodes, with nothing after it.
pub open spec fn decode_payload(b: Seq<u8>) -> Option<PayloadView> {
    if b.len() == 0 || b[0] != PAYLOAD_FORMAT {
        None
    } else {
        decode_payload_body(b)
    }
}

/// The payload after the format byte, with nothing after it.
pub open spec fn decode_payload_body(b: Seq<u8>) -> Option<PayloadView> {
    match parse_frame(b, 1) {
        Some((blob, p0)) => match parse_proofs(b, p0) {
            Some((proofs, end)) => if end == b.len() {
                Some(PayloadView { blob, proofs })
            } else {
                None
            },
            None => None,
        },
        None => None,
    }
}

/// Well-formed proofs read back from their binary form.
pub proof fn lemma_parse_proofs(b: Seq<u8>, pos: int, p: ProofView)
    requires
        p.wf(),
        holds_at(b, pos, proof_bytes(p)),
    ensures
        parse_proofs(b, pos) == Some((p, pos + proof_bytes(p).len())),
{
    let s1 = p.data_root;
    let s2 = s1 + p.data_commitment;
    let s3 = s2 + frame(p.data_root_tuple_proof);
    let s4 = s3 + frame(p.share_proof);
    let s5 = s4 + p.proof_nonce;
    let s6 = s5 + p.storage_root;
    lemma_holds_split(b, pos, s6, frame_list(p.storage_proof));
    lemma_holds_split(b, pos, s5, p.storage_root);
    lemma_holds_split(b, pos, s4, p.proof_nonce);
    lemma_holds_split(b, pos, s3, frame(p.share_proof));
    lemma_holds_split(b, pos, s2, frame(p.data_root_tuple_proof));
    lemma_holds_split(b, pos, s1, p.data_commitment);
    lemma_parse_fixed(b, pos, p.data_root);
    lemma_parse_fixed(b, pos + s1.len(), p.data_commitment);
    lemma_parse_frame(b, pos + s2.len(), p.data_root_tuple_proof);
    lemma_parse_frame(b, pos + s3.len(), p.share_proof);
    lemma_parse_fixed(b, pos + s4.len(), p.proof_nonce);
    lemma_parse_fixed(b, pos + s5.len(), p.storage_root);
    lemma_parse_list(b, pos + s6.len(), p.storage_proof);
}

/// Whatever the parser reads stands, re-encoded, in the input.
pub proof fn lemma_proofs_parsed(b: Seq<u8>, pos: int)
    requires
        parse_proofs(b, pos) is Some,
    ensures
        parse_proofs(b, pos) matches Some((p, q)) && p.wf() && holds_at(b, pos, proof_bytes(p))
            && q == pos + proof_bytes(p).len(),
{
    let (p, q) = parse_proofs(b, pos)->0;
    lemma_fixed_parsed(b, pos);
    let p1 = pos + 32;
    lemma_fixed_parsed(b, p1);
    let p2 = p1 + 32;
    lemma_frame_parsed(b, p2);
    let p3 = p2 + frame(p.data_root_tuple_proof).len();
    lemma_frame_parsed(b, p3);
    let p4 = p3 + frame(p.share_proof).len();
    lemma_fixed_parsed(b, p4);
    let p5 = p4 + 32;
    lemma_fixed_parsed(b, p5);
    let p6 = p5 + 32;
    lemma_list_parsed(b, p6);
    let s1 = p.data_root;
    let s2 = s1 + p.data_commitment;
    let s3 = s2 + frame(p.data_root_tuple_proof);
    let s4 = s3 + frame(p.share_proof);
    let s5 = s4 + p.proof_nonce;
    let s6 = s5 + p.storage_root;
    lemma_holds_join(b, pos, s1, p.data_commitment);
    lemma_holds_join(b, pos, s2, frame(p.data_root_tuple_proof));
    lemma_holds_join(b, pos, s3, frame(p.share_proof));
    lemma_holds_join(b, pos, s4, p.proof_nonce);
    lemma_holds_join(b, pos, s5, p.storage_root);
    lemma_holds_join(b, pos, s6, frame_list(p.storage_proof));
}

/// Round trip: a well-formed payload decodes from its binary form to itself.
pub proof fn lemma_payload_round_trip(p: PayloadView)
    requires
        p.wf(),
    ensures
        decode_payload(payload_bytes(p)) == Some(p),
{
    let b = payload_bytes(p);
    let tag = seq![PAYLOAD_FORMAT];
    assert(b =~= tag + (frame(p.blob) + proof_bytes(p.proofs)));
    assert(b.subrange(0, b.len() as int) =~= b);
    lemma_holds_split(b, 0, tag, frame(p.blob) + proof_bytes(p.proofs));
    lemma_holds_split(b, 1, frame(p.blob), proof_bytes(p.proofs));
    lemma_parse_frame(b, 1, p.blob);
    lemma_parse_proofs(b, 1 + frame(p.blob).len() as int, p.proofs);
}

/// The binary form is canonical: bytes that decode to a payload are exactly
/// that payload's binary form, so a decoded payload has a single encoding.
pub proof fn lemma_payload_canonical(b: Seq<u8>)
    requires
        decode_payload(b) is Some,
    ensures
        decode_payload(b) matches Some(p) && p.wf() && payload_bytes(p) == b,
{
    lemma_frame_parsed(b, 1);
    let (blob, p0) = parse_frame(b, 1)->0;
    lemma_proofs_parsed(b, p0);
    let (proofs, end) = parse_proofs(b, p0)->0;
    lemma_holds_join(b, 1, frame(blob), proof_bytes(proofs));
    let tag = seq![PAYLOAD_FORMAT];
    assert(b.subrange(0, 1) =~= tag);
    lemma_holds_join(b, 0, tag, frame(blob) + proof_bytes(proofs));
    assert(tag + (frame(blob) + proof_bytes(proofs)) =~= payload_bytes(
        PayloadView { blob, proofs },
    ));
    assert(b.subrange(0, b.len() as int) =~= b);
}

/// Round trip for the proofs alone.
pub proof fn lemma_proofs_round_trip(p: ProofView)
    requires
        p.wf(),
    ensures
        decode_proofs(proof_bytes(p)) == Some(p),
{
    let b = proof_bytes(p);
    assert(b.subrange(0, b.len() as int) =~= b);
    lemma_parse_proofs(b, 0, p);
}

/// Appends the binary form of the proof fields.
fn push_proofs(
    out: &mut Vec<u8>,
    data_root: &[u8; 32],
    data_commitment: &[u8; 32],
    data_root_tuple_proof: &Vec<u8>,
    share_proof: &Vec<u8>,
    proof_nonce: &[u8; 32],
    storage_root: &[u8; 32],
    storage_proof: &Vec<Vec<u8>>,
)
    ensures
        final(out)@ == old(out)@ + proof_bytes(
            ProofView {
                data_root: data_root@,
                data_commitment: data_commitment@,
                data_root_tuple_proof: data_root_tuple_proof@,
                share_proof: share_proof@,
                proof_nonce: proof_nonce@,
                storage_root: storage_root@,
                storage_proof: byte_strings(storage_proof@),
            },
        ),
{
    append_bytes(out, data_root.as_slice());
    append_bytes(out, data_commitment.as_slice());
    push_frame(out, data_root_tuple_proof.as_slice());
    push_frame(out, share_proof.as_slice());
    append_bytes(out, proof_nonce.as_slice());
    append_bytes(out, storage_root.as_slice());
    push_list(out, storage_proof);
    proof {
        let p = ProofView {
            data_root: data_root@,
            data_commitment: data_commitment@,
            data_root_tuple_proof: data_root_tuple_proof@,
            share_proof: share_proof@,
            proof_nonce: proof_nonce@,
            storage_root: storage_root@,
            storage_proof: byte_strings(storage_proof@),
        };
        assert(out@ =~= old(out)@ + proof_bytes(p));
    }
}

/// Errors in reading a binary form.
#[derive(Debug, Clone, Copy, PartialEq, Eq, Structural)]
pub enum DecodeError {
    /// The bytes are not the binary form of any value: too short, a length
    /// that runs past the end, or bytes after the end.
    Corrupt,
}

/// Reads the proof fields at `pos`.
fn read_proofs(b: &[u8], pos: usize) -> (r: Option<(BlobstreamProof, usize)>)
    ensures
        match parse_proofs(b@, pos as int) {
            Some((p, q)) => r matches Some((v, e)) && v@ == p && e == q,
            None => r is None,
        },
{
    let (data_root, p1) = match read_fixed(b, pos) {
        Some(x) => x,
        None => return None,
    };
    let (data_commitment, p2) = match read_fixed(b, p1) {
        Some(x) => x,
        None => return None,
    };
    let (data_root_tuple_proof, p3) = match read_frame(b, p2) {
        Some(x) => x,
        None => return None,
    };
    let (share_proof, p4) = match read_frame(b, p3) {
        Some(x) => x,
        None => return None,
    };
    let (proof_nonce, p5) = match read_fixed(b, p4) {
        Some(x) => x,
        None => return None,
    };
    let (storage_root, p6) = match read_fixed(b, p5) {
        Some(x) => x,
        None => return None,
    };
    let (storage_proof, p7) = match read_list(b, p6) {
        Some(x) => x,
        None => return None,
    };
    Some(
        (
            BlobstreamProof {
                data_root,
                data_commitment,
                data_root_tuple_proof,
                share_proof,
                proof_nonce,
                storage_root,
                storage_proof,
            },
            p7,
        ),
    )
}

impl BlobstreamProof {
    /// Bundles the proofs.
    pub fn new(
        data_root: [u8; 32],
        data_commitment: [u8; 32],
        data_root_tuple_proof: Vec<u8>,
        share_proof: Vec<u8>,
        proof_nonce: [u8; 32],
        storage_root: [u8; 32],
        storage_proof: Vec<Vec<u8>>,
    ) -> (r: BlobstreamProof)
        ensures
            r.data_root == data_root,
            r.data_commitment == data_commitment,
            r.data_root_tuple_proof == data_root_tuple_proof,
            r.share_proof == share_proof,
            r.proof_nonce == proof_nonce,
            r.storage_root == storage_root,
            r.storage_proof == storage_proof,
    {
        BlobstreamProof {
            data_root,
            data_commitment,
            data_root_tuple_proof,
            share_proof,
            proof_nonce,
            storage_root,
            storage_proof,
        }
    }

    /// The binary form of the proofs.
    pub fn to_bytes(&self) -> (r: Vec<u8>)
        ensures
            r@ == proof_bytes(self@),
    {
        let mut out: Vec<u8> = Vec::new();
        push_proofs(
            &mut out,
            &self.data_root,
            &self.data_commitment,
            &self.data_root_tuple_proof,
            &self.share_proof,
            &self.proof_nonce,
            &self.storage_root,
            &self.storage_proof,
        );
        out
    }

    /// Reads proofs from their binary form; fails unless `bytes` is exactly
    /// the binary form of some proofs.
    pub fn from_bytes(bytes: &[u8]) -> (r: Result<BlobstreamProof, DecodeError>)
        ensures
            match decode_proofs(bytes@) {
                Some(p) => r matches Ok(v) && v@ == p,
                None => r == Err::<BlobstreamProof, DecodeError>(DecodeError::Corrupt),
            },
    {
        match read_proofs(bytes, 0) {
            Some((p, end)) => if end == bytes.len() {
                Ok(p)
            } else {
                Err(DecodeError::Corrupt)
            },
            None => Err(DecodeError::Corrupt),
        }
    }
}

impl OraclePayload {
    /// Bundles a blob with its proofs.
    pub fn new(
        blob: Vec<u8>,
        data_root: [u8; 32],
        data_commitment: [u8; 32],
        data_root_tuple_proof: Vec<u8>,
        share_proof: Vec<u8>,
        proof_nonce: [u8; 32],
        storage_root: [u8; 32],
        storage_proof: Vec<Vec<u8>>,
    ) -> (r: OraclePayload)
        ensures
            r.blob == blob,
            r.data_root == data_root,
            r.data_commitment == data_commitment,
            r.data_root_tuple_proof == data_root_tuple_proof,
            r.share_proof == share_proof,
            r.proof_nonce == proof_nonce,
            r.storage_root == storage_root,
            r.storage_proof == storage_proof,
    {
        OraclePayload {
            blob,
            data_root,
            data_commitment,
            data_root_tuple_proof,
            share_proof,
            proof_nonce,
            storage_root,
            storage_proof,
        }
    }

    /// Bundles a blob with proofs gathered for it.
    pub fn from_proof(blob: Vec<u8>, proof: BlobstreamProof) -> (r: OraclePayload)
        ensures
            r@ == (PayloadView { blob: blob@, proofs: proof@ }),
    {
        OraclePayload {
            blob,
            data_root: proof.data_root,
            data_commitment: proof.data_commitment,
            data_root_tuple_proof: proof.data_root_tuple_proof,
            share_proof: proof.share_proof,
            proof_nonce: proof.proof_nonce,
            storage_root: proof.storage_root,
            storage_proof: proof.storage_proof,
        }
    }

    /// The binary form of the payload.
    pub fn to_bytes(&self) -> (r: Vec<u8>)
        ensures
            r@ == payload_bytes(self@),
    {
        let mut out: Vec<u8> = Vec::new();
        out.push(PAYLOAD_FORMAT);
        push_frame(&mut out, self.blob.as_slice());
        push_proofs(
            &mut out,
            &self.data_root,
            &self.data_commitment,
            &self.data_root_tuple_proof,
            &self.share_proof,
            &self.proof_nonce,
            &self.storage_root,
            &self.storage_proof,
        );
        proof {
            assert(out@ =~= payload_bytes(self@));
        }
        out
    }

    /// Reads a payload from its binary form; fails unless `bytes` is exactly
    /// the binary form of some payload.
    pub fn from_bytes(bytes: &[u8]) -> (r: Result<OraclePayload, DecodeError>)
        ensures
            match decode_payload(bytes@) {
                Some(p) => r matches Ok(v) && v@ == p,
                None => r == Err::<OraclePayload, DecodeError>(DecodeError::Corrupt),
            },
    {
        if bytes.len() == 0 || bytes[0] != PAYLOAD_FORMAT {
            return Err(DecodeError::Corrupt);
        }
        let (blob, p0) = match read_frame(bytes, 1) {
            Some(x) => x,
            None => return Err(DecodeError::Corrupt),
        };
        match read_proofs(bytes, p0) {
            Some((p, end)) => if end == bytes.len() {
                Ok(OraclePayload::from_proof(blob, p))
            } else {
                Err(DecodeError::Corrupt)
            },
            None => Err(DecodeError::Corrupt),
        }
    }
}

} // verus!
