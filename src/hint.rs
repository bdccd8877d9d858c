//! The hint alphabet: the base single-chain hints, extended with the
//! `celestia-da` hint that asks the host for a Celestia blob and its proofs.
//!
//! The base alphabet belongs to the single-chain proof program; this module
//! takes the base parser's verdict on a token as an argument and keeps a
//! base hint as its token.
use crate::keccak::{keccak256, keccak_of};
use crate::wire::{append_bytes, le_bytes, le_value, lemma_le_round_trip, push_u64_le};
use vstd::prelude::*;

verus! {

/// The length of a `celestia-da` hint payload: a height and a commitment.
pub const CELESTIA_HINT_PAYLOAD_LEN: usize = 40;

/// The preimage key type byte of global generic keys.
pub const GLOBAL_GENERIC_KEY_TYPE: u8 = 3;

/// A hint type: one of the base alphabet, or the Celestia extension.
#[derive(Debug, Clone, PartialEq, Eq)]
pub enum HintWrapper {
    /// A hint of the base alphabet, kept as its token.
    Standard(String),
    /// A request for a Celestia blob and the proofs of its inclusion.
    CelestiaDA,
}

/// Why a hint was refused.
#[derive(Debug, Clone, Copy, PartialEq, Eq, Structural)]
pub enum HintError {
    /// The token is neither a base hint nor `celestia-da`.
    UnknownHint,
    /// A `celestia-da` payload that is not 40 bytes long.
    InvalidPayloadLength,
}

/// The token of the Celestia hint.
pub open spec fn celestia_token() -> Seq<char> {
    "celestia-da"@
}

/// The hint that `s` names, given whether the base alphabet accepts `s`:
/// base hints first, then the extension.
pub open spec fn parse_hint(s: Seq<char>, is_base_hint: bool) -> Option<HintWrapper> {
    if is_base_hint {
        Some(HintWrapper::Standard(choose|t: String| t@ == s))
    } else if s == celestia_token() {
        Some(HintWrapper::CelestiaDA)
    } else {
        None
    }
}

/// The printed form of a hint.
pub open spec fn hint_text(h: HintWrapper) -> Seq<char> {
    match h {
        HintWrapper::Standard(t) => t@,
        HintWrapper::CelestiaDA => celestia_token(),
    }
}

impl HintWrapper {
    /// Parses a hint token. `is_base_hint` is the base alphabet's verdict on
    /// `s`; the base alphabet is tried first, then `celestia-da`.
    pub fn from_str(s: &str, is_base_hint: bool) -> (r: Result<HintWrapper, HintError>)
        ensures
            is_base_hint ==> (r matches Ok(HintWrapper::Standard(t)) && t@ == s@),
            !is_base_hint && s@ == celestia_token() ==> r == Ok::<HintWrapper, HintError>(
                HintWrapper::CelestiaDA,
            ),
            !is_base_hint && s@ != celestia_token() ==> r == Err::<HintWrapper, HintError>(
                HintError::UnknownHint,
            ),
    {
        if is_base_hint {
            return Ok(HintWrapper::Standard(s.to_owned()));
        }
        let token = s.to_owned();
        let celestia = "celestia-da".to_owned();
        if token == celestia {
            Ok(HintWrapper::CelestiaDA)
        } else {
            Err(HintError::UnknownHint)
        }
    }

    /// The printed form of the hint.
    pub fn to_string(&self) -> (r: String)
        ensures
            r@ == hint_text(*self),
    {
        match self {
            HintWrapper::Standard(t) => t.clone(),
            HintWrapper::CelestiaDA => "celestia-da".to_owned(),
        }
    }
}

/// Text round trip: parsing the printed form of a hint gives the hint back,
/// for a base hint whose token the base alphabet accepts, and for the
/// Celestia hint, whose token the base alphabet does not hold.
pub proof fn lemma_hint_round_trip(h: HintWrapper, is_base_hint: bool)
    requires
        h is Standard ==> is_base_hint,
        h is CelestiaDA ==> !is_base_hint,
    ensures
        match h {
            HintWrapper::Standard(t) => parse_hint(hint_text(h), is_base_hint) matches Some(
                HintWrapper::Standard(u),
            ) && u@ == t@,
            HintWrapper::CelestiaDA => parse_hint(hint_text(h), is_base_hint) == Some(
                HintWrapper::CelestiaDA,
            ),
        },
{
    if let HintWrapper::Standard(t) = h {
        let u = choose|u: String| u@ == t@;
        assert(exists|u: String| u@ == t@);
    }
}

/// The payload of a `celestia-da` hint: the height little-endian, then the
/// blob commitment.
pub open spec fn celestia_hint_payload(height: u64, commitment: Seq<u8>) -> Seq<u8> {
    le_bytes(height) + commitment
}

/// The global generic preimage key for a digest: the key type byte, then
/// the low-order 31 bytes of the digest.
pub open spec fn global_generic_key(digest: Seq<u8>) -> Seq<u8> {
    seq![GLOBAL_GENERIC_KEY_TYPE] + digest.subrange(1, 32)
}

/// The preimage key under which the host serves the payload for a hint.
pub open spec fn celestia_preimage_key(hint_payload: Seq<u8>) -> Seq<u8> {
    global_generic_key(keccak_of(hint_payload))
}

/// Relies on `kona_preimage::PreimageKey::new` with
/// `PreimageKeyType::GlobalGeneric`, and its conversion to `[u8; 32]`: the
/// type byte 3, then the low-order 31 bytes of `digest`.
#[verifier::external_body]
fn to_global_generic_key(digest: [u8; 32]) -> (r: [u8; 32])
    ensures
        r@ == global_generic_key(digest@),
{
    kona_preimage::PreimageKey::new(digest, kona_preimage::PreimageKeyType::GlobalGeneric).into()
}

/// Builds the payload of a `celestia-da` hint.
pub fn encode_celestia_hint(height: u64, commitment: &[u8; 32]) -> (r: Vec<u8>)
    ensures
        r@ == celestia_hint_payload(height, commitment@),
        r@.len() == CELESTIA_HINT_PAYLOAD_LEN,
{
    proof { lemma_le_round_trip(); }
    let mut encoded: Vec<u8> = Vec::with_capacity(CELESTIA_HINT_PAYLOAD_LEN);
    push_u64_le(&mut encoded, height);
    append_bytes(&mut encoded, commitment.as_slice());
    encoded
}

/// Reads the height and commitment of a `celestia-da` hint payload.
pub fn decode_celestia_hint(data: &[u8]) -> (r: Result<(u64, [u8; 32]), HintError>)
    ensures
        data@.len() == CELESTIA_HINT_PAYLOAD_LEN <==> r is Ok,
        r is Err ==> r == Err::<(u64, [u8; 32]), HintError>(HintError::InvalidPayloadLength),
        r matches Ok((h, c)) ==> celestia_hint_payload(h, c@) == data@,
{
    if data.len() != CELESTIA_HINT_PAYLOAD_LEN {
        return Err(HintError::InvalidPayloadLength);
    }
    proof { lemma_le_round_trip(); }
    let mut word: Vec<u8> = Vec::with_capacity(8);
    let mut commitment = [0u8; 32];
    let mut i: usize = 0;
    while i < 8
        invariant
            data@.len() == 40,
            0 <= i <= 8,
            word@ == data@.subrange(0, i as int),
        decreases 8 - i,
    {
        word.push(data[i]);
        assert(data@.subrange(0, i + 1) =~= data@.subrange(0, i as int).push(data@[i as int]));
        i = i + 1;
    }
    let height = vstd::bytes::u64_from_le_bytes(word.as_slice());
    let mut j: usize = 0;
    while j < 32
        invariant
            data@.len() == 40,
            0 <= j <= 32,
            forall|k: int| 0 <= k < j ==> commitment@[k] == data@[8 + k],
        decreases 32 - j,
    {
        commitment[j] = data[8 + j];
        j = j + 1;
    }
    proof {
        assert(word@ =~= data@.subrange(0, 8));
        assert(height == le_value(word@));
        assert(le_bytes(le_value(word@)) == word@);
        assert(commitment@ =~= data@.subrange(8, 40));
        assert(celestia_hint_payload(height, commitment@) =~= data@);
    }
    Ok((height, commitment))
}

/// The preimage key for a hint payload: its Keccak-256 digest as a global
/// generic key.
pub fn preimage_key(hint_payload: &[u8]) -> (r: [u8; 32])
    ensures
        r@ == celestia_preimage_key(hint_payload@),
{
    let digest = keccak256(hint_payload);
    to_global_generic_key(digest)
}

} // verus!
