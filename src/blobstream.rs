//! Blobstream proof primitives: the data-root tuple that Blobstream commits
//! to, the storage slot of `state_dataCommitments[nonce]`, and the check of a
//! storage proof for that slot.
use crate::keccak::{keccak256, keccak_of};
use crate::trie_shape::{check_trie_nodes, trie_nodes_safe};
use crate::wire::{abi_word, append_bytes, be_bytes, byte_strings, push_abi_word};
use vstd::prelude::*;

verus! {

/// Storage slot of the `state_dataCommitments` mapping in the Blobstream
/// contract.
pub const DATA_COMMITMENTS_SLOT: u32 = 254;

/// RLP prefix of a 32-byte string, under which the trie stores a `bytes32`
/// storage value.
pub const RLP_BYTES32_PREFIX: u8 = 0xa0;

/// The failed check when a proof is rejected.
#[derive(Debug, Clone, Copy, PartialEq, Eq, Structural)]
pub enum ProofError {
    /// The share proof does not prove the blob's shares under the data root.
    ShareProof,
    /// The data-root tuple is not proven under the data commitment.
    DataRootTupleProof,
    /// The storage proof does not show the data commitment stored for the nonce.
    StorageProof,
    /// The blob is not the data that the proven shares spell.
    BlobShares,
    /// The proven blob's commitment is not the one asked for.
    BlobCommitment,
}

/// `(height, data_root)` as Blobstream hashes it: the height as a 32-byte
/// big-endian word, then the data root.
pub open spec fn data_root_tuple(height: u64, data_root: Seq<u8>) -> Seq<u8> {
    abi_word(height) + data_root
}

/// The data-root tuple is 64 bytes: 24 zero bytes, the height big-endian,
/// then the data root.
pub proof fn lemma_data_root_tuple_layout(height: u64, data_root: Seq<u8>)
    requires
        data_root.len() == 32,
    ensures
        data_root_tuple(height, data_root).len() == 64,
        forall|i: int| 0 <= i < 24 ==> #[trigger] data_root_tuple(height, data_root)[i] == 0,
        data_root_tuple(height, data_root).subrange(24, 32) == be_bytes(height),
        data_root_tuple(height, data_root).subrange(32, 64) == data_root,
{
    let t = data_root_tuple(height, data_root);
    assert(t.subrange(24, 32) =~= be_bytes(height));
    assert(t.subrange(32, 64) =~= data_root);
}

/// The storage slot of `mapping(uint256 => bytes32)` entry `key` for a
/// mapping declared at slot `mapping_slot`: the hash of the key word followed
/// by the slot word.
pub open spec fn slot_of_mapping_entry(mapping_slot: u32, key: Seq<u8>) -> Seq<u8> {
    keccak_of(key + abi_word(mapping_slot as u64))
}

/// The trie value under which a `bytes32` storage word is kept.
pub open spec fn stored_word(word: Seq<u8>) -> Seq<u8> {
    seq![RLP_BYTES32_PREFIX] + word
}

/// Whether the Merkle-Patricia proof `nodes` shows, under the storage root
/// `root`, the value `value` at the path of the hashed key `key`.
pub uninterp spec fn trie_proves(
    root: Seq<u8>,
    key: Seq<u8>,
    value: Seq<u8>,
    nodes: Seq<Seq<u8>>,
) -> bool;

/// Whether `storage_proof`, made of nodes of the accepted shapes, shows
/// `commitment` stored in `state_dataCommitments[nonce]` under the storage
/// root `root`.
pub open spec fn commitment_stored(
    root: Seq<u8>,
    storage_proof: Seq<Seq<u8>>,
    nonce: Seq<u8>,
    commitment: Seq<u8>,
) -> bool {
    trie_nodes_safe(storage_proof) && trie_proves(
        root,
        keccak_of(slot_of_mapping_entry(DATA_COMMITMENTS_SLOT, nonce)),
        stored_word(commitment),
        storage_proof,
    )
}

/// The storage check looks for the commitment behind the one-byte RLP
/// prefix `0xa0`, at the hashed slot of `state_dataCommitments[nonce]`.
pub proof fn lemma_commitment_stored_with_rlp_prefix(
    root: Seq<u8>,
    storage_proof: Seq<Seq<u8>>,
    nonce: Seq<u8>,
    commitment: Seq<u8>,
)
    ensures
        commitment_stored(root, storage_proof, nonce, commitment) == (trie_nodes_safe(storage_proof)
            && trie_proves(
            root,
            keccak_of(keccak_of(nonce + abi_word(254))),
            seq![0xa0u8] + commitment,
            storage_proof,
        )),
        (seq![0xa0u8] + commitment).len() == commitment.len() + 1,
        (seq![0xa0u8] + commitment)[0] == 0xa0,
{
    assert(stored_word(commitment) =~= seq![0xa0u8] + commitment);
}

/// Relies on `alloy_trie::proof::verify_proof`, with the path unpacked from
/// `key` by `Nibbles::unpack` and `value` as the expected value: the verdict
/// depends on the arguments alone, and a proof with no nodes never shows a
/// value. The verifier panics on nodes encoded in place under a branch and
/// on paths longer than the trie's depth, which the accepted shapes rule out.
#[verifier::external_body]
fn verify_trie_proof(root: &[u8; 32], key: &[u8; 32], value: &Vec<u8>, nodes: &Vec<Vec<u8>>) -> (r:
    bool)
    requires
        trie_nodes_safe(byte_strings(nodes@)),
    ensures
        r == trie_proves(root@, key@, value@, byte_strings(nodes@)),
        nodes@.len() == 0 ==> !r,
{
    let proof: Vec<alloy_primitives::Bytes> =
        nodes.iter().map(|n| alloy_primitives::Bytes::copy_from_slice(n)).collect();
    alloy_trie::proof::verify_proof(
        alloy_primitives::B256::from(*root),
        alloy_trie::Nibbles::unpack(key),
        Some(value.clone()),
        &proof,
    ).is_ok()
}

/// Encodes `(height, data_root)` as the 64-byte leaf of a Blobstream data
/// commitment: 24 zero bytes, the height big-endian, the data root.
pub fn encode_data_root_tuple(height: u64, data_root: &[u8; 32]) -> (r: Vec<u8>)
    ensures
        r@ == data_root_tuple(height, data_root@),
        r@.len() == 64,
{
    let mut result: Vec<u8> = Vec::with_capacity(64);
    push_abi_word(&mut result, height);
    append_bytes(&mut result, data_root.as_slice());
    proof {
        assert(result@ =~= data_root_tuple(height, data_root@));
    }
    result
}

/// The storage slot of entry `key` (a 32-byte big-endian `uint256`) of a
/// `mapping(uint256 => bytes32)` declared at `mapping_slot`.
pub fn calculate_mapping_slot(mapping_slot: u32, key: &[u8; 32]) -> (r: [u8; 32])
    ensures
        r@ == slot_of_mapping_entry(mapping_slot, key@),
{
    let mut concatenated: Vec<u8> = Vec::with_capacity(64);
    append_bytes(&mut concatenated, key.as_slice());
    push_abi_word(&mut concatenated, mapping_slot as u64);
    keccak256(concatenated.as_slice())
}

/// Checks that `storage_proof` shows `expected_commitment` stored in the
/// Blobstream `state_dataCommitments` mapping under `nonce`, against the
/// contract's storage root.
pub fn verify_data_commitment_storage(
    root: &[u8; 32],
    storage_proof: &Vec<Vec<u8>>,
    commitment_nonce: &[u8; 32],
    expected_commitment: &[u8; 32],
) -> (r: Result<(), ProofError>)
    ensures
        r is Ok <==> commitment_stored(
            root@,
            byte_strings(storage_proof@),
            commitment_nonce@,
            expected_commitment@,
        ),
        r is Err ==> r == Err::<(), ProofError>(ProofError::StorageProof),
        storage_proof@.len() == 0 ==> r is Err,
{
    let slot = calculate_mapping_slot(DATA_COMMITMENTS_SLOT, commitment_nonce);
    let path = keccak256(slot.as_slice());
    let mut expected_with_prefix: Vec<u8> = Vec::with_capacity(33);
    expected_with_prefix.push(RLP_BYTES32_PREFIX);
    append_bytes(&mut expected_with_prefix, expected_commitment.as_slice());
    proof {
        assert(expected_with_prefix@ =~= stored_word(expected_commitment@));
    }
    if !check_trie_nodes(storage_proof) {
        return Err(ProofError::StorageProof);
    }
    if verify_trie_proof(root, &path, &expected_with_prefix, storage_proof) {
        Ok(())
    } else {
        Err(ProofError::StorageProof)
    }
}

} // verus!
