//! Byte-level framing shared by the payload codec and the hint payloads:
//! little-endian `u64` words, big-endian `u64` words, length-prefixed byte
//! strings and lists of byte strings.
use vstd::bytes::{spec_u64_to_le_bytes, spec_u64_from_le_bytes, lemma_auto_spec_u64_to_from_le_bytes};
use vstd::prelude::*;

verus! {

/// The eight little-endian bytes of `x`.
pub open spec fn le_bytes(x: u64) -> Seq<u8> {
    spec_u64_to_le_bytes(x)
}

/// The value of eight little-endian bytes.
pub open spec fn le_value(s: Seq<u8>) -> u64 {
    spec_u64_from_le_bytes(s)
}

/// The eight big-endian bytes of `x`.
pub open spec fn be_bytes(x: u64) -> Seq<u8> {
    Seq::new(8, |i: int| spec_u64_to_le_bytes(x)[7 - i])
}

/// `le_bytes` and `le_value` are inverse to each other.
pub proof fn lemma_le_round_trip()
    ensures
        forall|x: u64| #![trigger le_bytes(x)] le_bytes(x).len() == 8 && le_value(le_bytes(x)) == x,
        forall|s: Seq<u8>| #![trigger le_value(s)] s.len() == 8 ==> le_bytes(le_value(s)) == s,
{
    lemma_auto_spec_u64_to_from_le_bytes();
}

/// Appends every byte of `src`, in order.
pub fn append_bytes(out: &mut Vec<u8>, src: &[u8])
    ensures
        final(out)@ == old(out)@ + src@,
{
    let mut i: usize = 0;
    while i < src.len()
        invariant
            0 <= i <= src@.len(),
            out@ == old(out)@ + src@.subrange(0, i as int),
        decreases src@.len() - i,
    {
        out.push(src[i]);
        proof {
            assert(src@.subrange(0, i + 1) =~= src@.subrange(0, i as int).push(src@[i as int]));
        }
        i = i + 1;
    }
    proof {
        assert(src@.subrange(0, src@.len() as int) =~= src@);
    }
}

/// Appends the eight little-endian bytes of `x`.
pub fn push_u64_le(out: &mut Vec<u8>, x: u64)
    ensures
        final(out)@ == old(out)@ + le_bytes(x),
{
    let bytes = vstd::bytes::u64_to_le_bytes(x);
    append_bytes(out, bytes.as_slice());
}

} // verus!

verus! {

/// `n` zero bytes.
pub open spec fn zeros(n: nat) -> Seq<u8> {
    Seq::new(n, |i: int| 0u8)
}

/// A `u64` as a 32-byte big-endian word, as the EVM ABI lays out `uint64`
/// and smaller unsigned values.
pub open spec fn abi_word(x: u64) -> Seq<u8> {
    zeros(24) + be_bytes(x)
}

/// Appends the eight big-endian bytes of `x`.
pub fn push_u64_be(out: &mut Vec<u8>, x: u64)
    ensures
        final(out)@ == old(out)@ + be_bytes(x),
{
    proof { lemma_le_round_trip(); }
    let le = vstd::bytes::u64_to_le_bytes(x);
    let mut i: usize = 0;
    while i < 8
        invariant
            le@ == le_bytes(x),
            le@.len() == 8,
            0 <= i <= 8,
            out@ == old(out)@ + be_bytes(x).subrange(0, i as int),
        decreases 8 - i,
    {
        out.push(le[7 - i]);
        proof {
            assert(be_bytes(x).subrange(0, i + 1) =~= be_bytes(x).subrange(0, i as int).push(
                le@[7 - i],
            ));
        }
        i = i + 1;
    }
    proof {
        assert(be_bytes(x).subrange(0, 8) =~= be_bytes(x));
    }
}

/// Appends `n` zero bytes.
pub fn push_zeros(out: &mut Vec<u8>, n: usize)
    ensures
        final(out)@ == old(out)@ + zeros(n as nat),
{
    let mut i: usize = 0;
    while i < n
        invariant
            0 <= i <= n,
            out@ == old(out)@ + zeros(i as nat),
        decreases n - i,
    {
        out.push(0u8);
        proof {
            assert(zeros((i + 1) as nat) =~= zeros(i as nat).push(0u8));
        }
        i = i + 1;
    }
}

/// Appends the ABI word of `x`.
pub fn push_abi_word(out: &mut Vec<u8>, x: u64)
    ensures
        final(out)@ == old(out)@ + abi_word(x),
{
    push_zeros(out, 24);
    push_u64_be(out, x);
    proof {
        assert(old(out)@ + zeros(24) + be_bytes(x) =~= old(out)@ + abi_word(x));
    }
}

} // verus!

verus! {

/// The contents of a list of byte vectors.
pub open spec fn byte_strings(l: Seq<Vec<u8>>) -> Seq<Seq<u8>> {
    Seq::new(l.len(), |i: int| l[i]@)
}

} // verus!

verus! {

/// Whether two 32-byte words are equal.
pub fn words_equal(a: &[u8; 32], b: &[u8; 32]) -> (r: bool)
    ensures
        r == (a@ == b@),
{
    let mut i: usize = 0;
    while i < 32
        invariant
            0 <= i <= 32,
            forall|k: int| 0 <= k < i ==> a@[k] == b@[k],
        decreases 32 - i,
    {
        if a[i] != b[i] {
            return false;
        }
        i = i + 1;
    }
    assert(a@ =~= b@);
    true
}

} // verus!

verus! {

/// Whether two byte strings are equal.
pub fn bytes_equal(a: &[u8], b: &[u8]) -> (r: bool)
    ensures
        r == (a@ == b@),
{
    if a.len() != b.len() {
        return false;
    }
    let mut i: usize = 0;
    while i < a.len()
        invariant
            a@.len() == b@.len(),
            0 <= i <= a@.len(),
            forall|k: int| 0 <= k < i ==> a@[k] == b@[k],
        decreases a@.len() - i,
    {
        if a[i] != b[i] {
            return false;
        }
        i = i + 1;
    }
    assert(a@ =~= b@);
    true
}

} // verus!
