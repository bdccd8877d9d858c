//! Host-side rules for answering a `celestia-da` hint: where the blob's
//! shares sit in the original data square, which Blobstream event attests
//! the blob's block, and the checks that a witness bundle passes before it
//! is served.
use crate::blobstream::{ProofError, calculate_mapping_slot, DATA_COMMITMENTS_SLOT};
use crate::codec::list_fits;
use crate::hint::{
    celestia_hint_payload, celestia_preimage_key, decode_celestia_hint, preimage_key, HintError,
    HintWrapper,
};
use crate::keccak::{keccak256, keccak_of};
use crate::payload::{payload_bytes, BlobstreamProof, OraclePayload, PayloadView};
use crate::provider::{
    guest_outcome, lemma_served_payload_accepted, payload_verdict, proof_verdict, proofs_hold,
};
use crate::wire::{abi_word, byte_strings, words_equal};
use vstd::prelude::*;
use vstd::string::StringSliceAdditionalSpecFns;

verus! {

/// The widest block range of one log query: the settlement node's default
/// cap for filters.
pub const FILTER_BLOCK_RANGE: u64 = 5000;

/// The range `[start, end)` of a blob's shares in the original data square,
/// from the index of its first share in the extended square of row width
/// `eds_size`. A share outside the original quarter has no such range.
pub open spec fn ods_share_range(index: u64, eds_size: u64, shares_len: u64) -> Option<(u64, u64)> {
    if eds_size == 0 {
        None
    } else {
        let ods_size = eds_size / 2;
        let row = index / eds_size;
        let col = index % eds_size;
        let start = row * ods_size + col;
        if col >= ods_size || start + shares_len > u64::MAX {
            None
        } else {
            Some((start as u64, (start + shares_len) as u64))
        }
    }
}

/// Locates a blob's shares in the original data square: the first share's
/// row in the extended square is `index / eds_size`, and each earlier row
/// holds `eds_size / 2` original shares.
pub fn share_range(index: u64, eds_size: u64, shares_len: u64) -> (r: Option<(u64, u64)>)
    ensures
        r == ods_share_range(index, eds_size, shares_len),
{
    if eds_size == 0 {
        return None;
    }
    let ods_size = eds_size / 2;
    let row = index / eds_size;
    let col = index % eds_size;
    if col >= ods_size {
        return None;
    }
    proof {
        assert(row * eds_size + col == index) by (nonlinear_arith)
            requires
                row == index / eds_size,
                col == index % eds_size,
                eds_size > 0,
        ;
        assert(row * ods_size <= row * eds_size) by (nonlinear_arith)
            requires
                ods_size <= eds_size,
        ;
    }
    let start = row * ods_size + col;
    if shares_len > u64::MAX - start {
        return None;
    }
    Some((start, start + shares_len))
}

/// A `DataCommitmentStored` event of the Blobstream contract.
#[derive(Debug, Clone, Copy, PartialEq, Eq)]
pub struct SP1BlobstreamDataCommitmentStored {
    /// The nonce under which the commitment is stored, big-endian.
    pub proof_nonce: [u8; 32],
    /// First Celestia height of the committed range.
    pub start_block: u64,
    /// Celestia height just past the committed range.
    pub end_block: u64,
    /// The data commitment over the range.
    pub data_commitment: [u8; 32],
}

impl SP1BlobstreamDataCommitmentStored {
    /// Whether the committed range holds `height`.
    pub open spec fn spec_covers(&self, height: u64) -> bool {
        self.start_block <= height < self.end_block
    }

    /// Whether the committed range holds `height`.
    pub fn covers(&self, height: u64) -> (r: bool)
        ensures
            r == self.spec_covers(height),
    {
        self.start_block <= height && height < self.end_block
    }
}

/// The first topic of every `DataCommitmentStored` log: the hash of the
/// event's signature.
pub fn data_commitment_stored_topic() -> (r: [u8; 32])
    ensures
        r@ == keccak_of("DataCommitmentStored(uint256,uint64,uint64,bytes32)".spec_bytes()),
{
    keccak256("DataCommitmentStored(uint256,uint64,uint64,bytes32)".as_bytes())
}

/// The contents of a list of log topics.
pub open spec fn topic_words(t: Seq<[u8; 32]>) -> Seq<Seq<u8>> {
    Seq::new(t.len(), |i: int| t[i]@)
}

/// The event that a log with these topics and data records, given the
/// event's first topic.
pub open spec fn decoded_event(
    topics: Seq<Seq<u8>>,
    data: Seq<u8>,
    topic0: Seq<u8>,
    e: SP1BlobstreamDataCommitmentStored,
) -> bool {
    &&& topics.len() == 4
    &&& topics[0] == topic0
    &&& topics[1] == abi_word(e.start_block)
    &&& topics[2] == abi_word(e.end_block)
    &&& topics[3] == e.data_commitment@
    &&& data == e.proof_nonce@
}

/// Reads the `uint64` in an ABI word, if the word holds one.
fn read_abi_u64(word: &[u8; 32]) -> (r: Option<u64>)
    ensures
        match r {
            Some(x) => word@ == abi_word(x),
            None => forall|x: u64| word@ != abi_word(x),
        },
{
    let mut i: usize = 0;
    while i < 24
        invariant
            0 <= i <= 24,
            forall|k: int| 0 <= k < i ==> word@[k] == 0,
        decreases 24 - i,
    {
        if word[i] != 0 {
            proof {
                assert forall|x: u64| word@ != abi_word(x) by {
                    assert(abi_word(x)[i as int] == 0);
                }
            }
            return None;
        }
        i = i + 1;
    }
    let mut le = [0u8; 8];
    let mut j: usize = 0;
    while j < 8
        invariant
            0 <= j <= 8,
            forall|k: int| 0 <= k < j ==> le@[k] == word@[31 - k],
        decreases 8 - j,
    {
        le[j] = word[31 - j];
        j = j + 1;
    }
    let x = vstd::bytes::u64_from_le_bytes(le.as_slice());
    proof {
        crate::wire::lemma_le_round_trip();
        assert(le@.len() == 8);
        assert(crate::wire::le_bytes(crate::wire::le_value(le@)) == le@);
        assert(word@ =~= abi_word(x));
    }
    Some(x)
}

/// Decodes a `DataCommitmentStored` log from its topics and data; `None`
/// when the log is not such an event or is not in canonical form.
pub fn decode_data_commitment_log(topics: &Vec<[u8; 32]>, data: &[u8]) -> (r: Option<
    SP1BlobstreamDataCommitmentStored,
>)
    ensures
        match r {
            Some(e) => decoded_event(
                topic_words(topics@),
                data@,
                keccak_of("DataCommitmentStored(uint256,uint64,uint64,bytes32)".spec_bytes()),
                e,
            ),
            None => forall|e: SP1BlobstreamDataCommitmentStored|
                !#[trigger] decoded_event(
                    topic_words(topics@),
                    data@,
                    keccak_of("DataCommitmentStored(uint256,uint64,uint64,bytes32)".spec_bytes()),
                    e,
                ),
        },
{
    let ghost ts = topic_words(topics@);
    let ghost topic0 = keccak_of("DataCommitmentStored(uint256,uint64,uint64,bytes32)".spec_bytes());
    if topics.len() != 4 || data.len() != 32 {
        return None;
    }
    let selector = data_commitment_stored_topic();
    if !words_equal(&topics[0], &selector) {
        proof {
            assert(ts[0] == topics@[0]@);
        }
        return None;
    }
    let start_block = match read_abi_u64(&topics[1]) {
        Some(x) => x,
        None => {
            proof { assert(ts[1] == topics@[1]@); }
            return None;
        },
    };
    let end_block = match read_abi_u64(&topics[2]) {
        Some(x) => x,
        None => {
            proof { assert(ts[2] == topics@[2]@); }
            return None;
        },
    };
    let mut proof_nonce = [0u8; 32];
    let mut i: usize = 0;
    while i < 32
        invariant
            data@.len() == 32,
            0 <= i <= 32,
            forall|k: int| 0 <= k < i ==> proof_nonce@[k] == data@[k],
        decreases 32 - i,
    {
        proof_nonce[i] = data[i];
        i = i + 1;
    }
    let e = SP1BlobstreamDataCommitmentStored {
        proof_nonce,
        start_block,
        end_block,
        data_commitment: topics[3],
    };
    proof {
        assert(proof_nonce@ =~= data@);
        assert(ts[0] == topics@[0]@);
        assert(ts[1] == topics@[1]@);
        assert(ts[2] == topics@[2]@);
        assert(ts[3] == topics@[3]@);
    }
    Some(e)
}

/// The index of the first event whose range holds `height`.
pub fn first_covering_event(events: &Vec<SP1BlobstreamDataCommitmentStored>, height: u64) -> (r:
    Option<usize>)
    ensures
        match r {
            Some(i) => i < events@.len() && events@[i as int].spec_covers(height) && forall|j: int|
                0 <= j < i ==> !(#[trigger] events@[j]).spec_covers(height),
            None => forall|j: int|
                0 <= j < events@.len() ==> !(#[trigger] events@[j]).spec_covers(height),
        },
{
    let mut i: usize = 0;
    while i < events.len()
        invariant
            0 <= i <= events@.len(),
            forall|j: int| 0 <= j < i ==> !(#[trigger] events@[j]).spec_covers(height),
        decreases events@.len() - i,
    {
        if events[i].covers(height) {
            return Some(i);
        }
        i = i + 1;
    }
    None
}

/// The query window that ends at `end`: at most `FILTER_BLOCK_RANGE`
/// blocks, never below block 0.
pub open spec fn window_below(end: u64) -> (u64, u64) {
    if end > FILTER_BLOCK_RANGE {
        ((end - FILTER_BLOCK_RANGE) as u64, end)
    } else {
        (0, end)
    }
}

/// What to do after a window of logs has been read.
#[derive(Debug, Clone, Copy, PartialEq, Eq)]
pub enum ScanStep {
    /// The event whose range holds the height.
    Found(SP1BlobstreamDataCommitmentStored),
    /// Query the logs of blocks `from..=to` next.
    Query { from: u64, to: u64 },
    /// The scan reached block 0 and no event holds the height: the block
    /// is not attested yet.
    NotYetAttested,
}

/// A backward scan of the Blobstream logs for the event whose range holds
/// a Celestia height, one window of blocks at a time.
#[derive(Debug, Clone, Copy, PartialEq, Eq, Structural)]
pub struct CommitmentScan {
    /// The Celestia height to attest.
    pub height: u64,
    /// First settlement block of the current window.
    pub start: u64,
    /// Last settlement block of the current window.
    pub end: u64,
}

impl CommitmentScan {
    /// Starts at the window that ends at the latest settlement block.
    pub fn new(height: u64, latest_block: u64) -> (r: CommitmentScan)
        ensures
            r.height == height,
            (r.start, r.end) == window_below(latest_block),
    {
        let start = if latest_block > FILTER_BLOCK_RANGE {
            latest_block - FILTER_BLOCK_RANGE
        } else {
            0
        };
        CommitmentScan { height, start, end: latest_block }
    }

    /// Takes the events found in the current window, in log order: the
    /// first that holds the height ends the scan; otherwise the scan moves
    /// to the window below, or ends at block 0.
    pub fn step(&mut self, events: &Vec<SP1BlobstreamDataCommitmentStored>) -> (r: ScanStep)
        ensures
            final(self).height == old(self).height,
            match r {
                ScanStep::Found(e) => exists|i: int|
                    0 <= i < events@.len() && events@[i] == e && e.spec_covers(old(self).height)
                        && forall|j: int|
                        0 <= j < i ==> !(#[trigger] events@[j]).spec_covers(old(self).height),
                ScanStep::Query { from, to } => {
                    &&& forall|j: int|
                        0 <= j < events@.len() ==> !(#[trigger] events@[j]).spec_covers(
                            old(self).height,
                        )
                    &&& old(self).start != 0
                    &&& (from, to) == window_below(old(self).start)
                    &&& final(self).start == from && final(self).end == to
                },
                ScanStep::NotYetAttested => {
                    &&& forall|j: int|
                        0 <= j < events@.len() ==> !(#[trigger] events@[j]).spec_covers(
                            old(self).height,
                        )
                    &&& old(self).start == 0
                },
            },
            r is Found || r is NotYetAttested ==> *final(self) == *old(self),
    {
        match first_covering_event(events, self.height) {
            Some(i) => ScanStep::Found(events[i]),
            None => {
                if self.start == 0 {
                    return ScanStep::NotYetAttested;
                }
                let end = self.start;
                let start = if end > FILTER_BLOCK_RANGE {
                    end - FILTER_BLOCK_RANGE
                } else {
                    0
                };
                self.start = start;
                self.end = end;
                ScanStep::Query { from: start, to: end }
            },
        }
    }
}

/// Reads the length of every proof node, which shows that each fits the
/// payload's length prefix.
fn storage_proof_fits(l: &Vec<Vec<u8>>)
    ensures
        list_fits(byte_strings(l@)),
{
    let mut i: usize = 0;
    while i < l.len()
        invariant
            0 <= i <= l@.len(),
            forall|j: int| 0 <= j < i ==> #[trigger] l@[j]@.len() <= u64::MAX,
        decreases l@.len() - i,
    {
        let _n = l[i].len();
        i = i + 1;
    }
}

/// Gathers the witnesses fetched for a blob at `height` into a bundle, and
/// keeps it only if every proof holds: the host never serves a bundle that
/// the guest would refuse.
pub fn assemble_blobstream_proof(
    height: u64,
    data_root: [u8; 32],
    event: &SP1BlobstreamDataCommitmentStored,
    data_root_tuple_proof: Vec<u8>,
    share_proof: Vec<u8>,
    storage_root: [u8; 32],
    storage_proof: Vec<Vec<u8>>,
) -> (r: Result<BlobstreamProof, ProofError>)
    ensures
        match r {
            Ok(p) => {
                &&& p.data_root == data_root
                &&& p.data_commitment == event.data_commitment
                &&& p.proof_nonce == event.proof_nonce
                &&& p.data_root_tuple_proof == data_root_tuple_proof
                &&& p.share_proof == share_proof
                &&& p.storage_root == storage_root
                &&& p.storage_proof == storage_proof
                &&& proofs_hold(p@, height)
            },
            Err(e) => proof_verdict(
                BlobstreamProof {
                    data_root,
                    data_commitment: event.data_commitment,
                    data_root_tuple_proof,
                    share_proof,
                    proof_nonce: event.proof_nonce,
                    storage_root,
                    storage_proof,
                }@,
                height,
            ) == Err::<(), ProofError>(e),
        },
{
    let bundle = BlobstreamProof::new(
        data_root,
        event.data_commitment,
        data_root_tuple_proof,
        share_proof,
        event.proof_nonce,
        storage_root,
        storage_proof,
    );
    match bundle.verify(height) {
        Ok(()) => Ok(bundle),
        Err(e) => Err(e),
    }
}

/// The storage slot of the commitment stored under the event's nonce, whose
/// proof the host asks the settlement node for.
pub fn commitment_slot(event: &SP1BlobstreamDataCommitmentStored) -> (r: [u8; 32])
    ensures
        r@ == crate::blobstream::slot_of_mapping_entry(DATA_COMMITMENTS_SLOT, event.proof_nonce@),
{
    calculate_mapping_slot(DATA_COMMITMENTS_SLOT, &event.proof_nonce)
}

/// What the host does with a hint.
#[derive(Debug, Clone, PartialEq, Eq)]
pub enum HintRoute {
    /// Hand the hint, with its data unchanged, to the single-chain handler.
    Standard(String),
    /// Fetch the blob at `height` with `commitment`, and store the payload
    /// under `key`.
    Celestia { height: u64, commitment: [u8; 32], key: [u8; 32] },
}

/// The host's handler for the extended hint alphabet.
#[derive(Debug, Clone, Copy, PartialEq, Eq, Structural)]
pub struct CelestiaChainHintHandler;

impl CelestiaChainHintHandler {
    /// Decides what a hint asks for: a base hint goes to the single-chain
    /// handler; a `celestia-da` hint needs a 40-byte payload, which names
    /// the blob and the key of its preimage.
    pub fn route(hint: &HintWrapper, data: &[u8]) -> (r: Result<HintRoute, HintError>)
        ensures
            match hint {
                HintWrapper::Standard(t) => r matches Ok(HintRoute::Standard(u)) && u@ == t@,
                HintWrapper::CelestiaDA => if data@.len() == 40 {
                    r matches Ok(HintRoute::Celestia { height, commitment, key }) && data@
                        == celestia_hint_payload(height, commitment@) && key@
                        == celestia_preimage_key(data@)
                } else {
                    r == Err::<HintRoute, HintError>(HintError::InvalidPayloadLength)
                },
            },
    {
        match hint {
            HintWrapper::Standard(t) => Ok(HintRoute::Standard(t.clone())),
            HintWrapper::CelestiaDA => {
                let (height, commitment) = match decode_celestia_hint(data) {
                    Ok(x) => x,
                    Err(e) => return Err(e),
                };
                let key = preimage_key(data);
                Ok(HintRoute::Celestia { height, commitment, key })
            },
        }
    }

    /// The preimage to store for a `celestia-da` hint for the blob at
    /// `height` with `commitment`: the binary payload of the blob and its
    /// proofs, once every proof holds, the blob is the data of the proven
    /// shares and has that commitment. A stored payload is one the guest
    /// accepts for the same hint, handing back this blob.
    pub fn celestia_preimage(
        height: u64,
        commitment: &[u8; 32],
        blob: Vec<u8>,
        proof: BlobstreamProof,
    ) -> (r: Result<Vec<u8>, ProofError>)
        ensures
            match payload_verdict(PayloadView { blob: blob@, proofs: proof@ }, height, commitment@) {
                Ok(_) => r matches Ok(bytes) && bytes@ == payload_bytes(
                    PayloadView { blob: blob@, proofs: proof@ },
                ) && guest_outcome(bytes@, height, commitment@) == Ok::<
                    Seq<u8>,
                    crate::provider::OracleError,
                >(
                    blob@,
                ),
                Err(e) => r == Err::<Vec<u8>, ProofError>(e),
            },
    {
        // The lengths are read so that the proof knows they fit the payload's
        // length prefixes.
        let _blob_len = blob.len();
        let _tuple_len = proof.data_root_tuple_proof.len();
        let _share_len = proof.share_proof.len();
        let _count = proof.storage_proof.len();
        storage_proof_fits(&proof.storage_proof);
        let payload = OraclePayload::from_proof(blob, proof);
        match payload.verify(height, commitment) {
            Ok(()) => {},
            Err(e) => return Err(e),
        }
        let bytes = payload.to_bytes();
        proof {
            lemma_served_payload_accepted(payload@, height, commitment@);
        }
        Ok(bytes)
    }
}

} // verus!
