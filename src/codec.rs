//! The framing of the oracle payload: fixed 32-byte fields, byte strings
//! behind a little-endian `u64` length, and lists of byte strings behind a
//! little-endian `u64` count. Parsing is specified position by position, and
//! each reader returns exactly what the parser gives.
use crate::wire::{append_bytes, byte_strings, le_bytes, le_value, lemma_le_round_trip, push_u64_le};
use vstd::prelude::*;

verus! {

/// A byte string behind its length.
pub open spec fn frame(b: Seq<u8>) -> Seq<u8> {
    le_bytes(b.len() as u64) + b
}

/// Each byte string behind its length, one after the other.
pub open spec fn frames(l: Seq<Seq<u8>>) -> Seq<u8>
    decreases l.len(),
{
    if l.len() == 0 {
        Seq::empty()
    } else {
        frames(l.drop_last()) + frame(l.last())
    }
}

/// A list of byte strings behind its count.
pub open spec fn frame_list(l: Seq<Seq<u8>>) -> Seq<u8> {
    le_bytes(l.len() as u64) + frames(l)
}

/// Whether `b` holds `s` from position `pos` on.
pub open spec fn holds_at(b: Seq<u8>, pos: int, s: Seq<u8>) -> bool {
    &&& 0 <= pos
    &&& pos + s.len() <= b.len()
    &&& b.subrange(pos, pos + s.len()) == s
}

/// Whether every string of the list fits the length prefix.
pub open spec fn list_fits(l: Seq<Seq<u8>>) -> bool {
    &&& l.len() <= u64::MAX
    &&& forall|i: int| 0 <= i < l.len() ==> #[trigger] l[i].len() <= u64::MAX
}

/// The 32 bytes at `pos`, and the position after them.
pub open spec fn parse_fixed(b: Seq<u8>, pos: int) -> Option<(Seq<u8>, int)> {
    if 0 <= pos && pos + 32 <= b.len() {
        Some((b.subrange(pos, pos + 32), pos + 32))
    } else {
        None
    }
}

/// The byte string framed at `pos`, and the position after it.
pub open spec fn parse_frame(b: Seq<u8>, pos: int) -> Option<(Seq<u8>, int)> {
    if 0 <= pos && pos + 8 <= b.len() {
        let n = le_value(b.subrange(pos, pos + 8));
        if pos + 8 + n <= b.len() {
            Some((b.subrange(pos + 8, pos + 8 + n), pos + 8 + n))
        } else {
            None
        }
    } else {
        None
    }
}

/// `n` framed byte strings from `pos` on, and the position after them.
pub open spec fn parse_frames(b: Seq<u8>, pos: int, n: nat) -> Option<(Seq<Seq<u8>>, int)>
    decreases n,
{
    if n == 0 {
        Some((Seq::empty(), pos))
    } else {
        match parse_frames(b, pos, (n - 1) as nat) {
            Some((l, q)) => match parse_frame(b, q) {
                Some((x, r)) => Some((l.push(x), r)),
                None => None,
            },
            None => None,
        }
    }
}

/// The list of byte strings at `pos`, and the position after it.
pub open spec fn parse_list(b: Seq<u8>, pos: int) -> Option<(Seq<Seq<u8>>, int)> {
    if 0 <= pos && pos + 8 <= b.len() {
        parse_frames(b, pos + 8, le_value(b.subrange(pos, pos + 8)) as nat)
    } else {
        None
    }
}

/// A run of bytes held at `pos` holds each of its two parts in turn.
pub proof fn lemma_holds_split(b: Seq<u8>, pos: int, s: Seq<u8>, t: Seq<u8>)
    requires
        holds_at(b, pos, s + t),
    ensures
        holds_at(b, pos, s),
        holds_at(b, pos + s.len(), t),
{
    let whole = b.subrange(pos, pos + s.len() + t.len());
    assert(whole == s + t);
    assert(b.subrange(pos, pos + s.len()) =~= whole.subrange(0, s.len() as int));
    assert(whole.subrange(0, s.len() as int) =~= s);
    assert(b.subrange(pos + s.len(), pos + s.len() + t.len()) =~= whole.subrange(
        s.len() as int,
        whole.len() as int,
    ));
    assert(whole.subrange(s.len() as int, whole.len() as int) =~= t);
}

/// Two parts held one after the other hold their concatenation.
pub proof fn lemma_holds_join(b: Seq<u8>, pos: int, s: Seq<u8>, t: Seq<u8>)
    requires
        holds_at(b, pos, s),
        holds_at(b, pos + s.len(), t),
    ensures
        holds_at(b, pos, s + t),
{
    assert(b.subrange(pos, pos + s.len() + t.len()) =~= s + t);
}

/// A fixed field reads back.
pub proof fn lemma_parse_fixed(b: Seq<u8>, pos: int, x: Seq<u8>)
    requires
        x.len() == 32,
        holds_at(b, pos, x),
    ensures
        parse_fixed(b, pos) == Some((x, pos + 32)),
{
}

/// A framed byte string reads back.
pub proof fn lemma_parse_frame(b: Seq<u8>, pos: int, x: Seq<u8>)
    requires
        x.len() <= u64::MAX,
        holds_at(b, pos, frame(x)),
    ensures
        parse_frame(b, pos) == Some((x, pos + frame(x).len())),
{
    lemma_le_round_trip();
    lemma_holds_split(b, pos, le_bytes(x.len() as u64), x);
}

/// Framed byte strings read back, one after the other.
pub proof fn lemma_parse_frames(b: Seq<u8>, pos: int, l: Seq<Seq<u8>>)
    requires
        list_fits(l),
        holds_at(b, pos, frames(l)),
    ensures
        parse_frames(b, pos, l.len()) == Some((l, pos + frames(l).len())),
    decreases l.len(),
{
    if l.len() > 0 {
        let init = l.drop_last();
        assert(list_fits(init)) by {
            assert forall|i: int| 0 <= i < init.len() implies #[trigger] init[i].len()
                <= u64::MAX by {
                assert(init[i] == l[i]);
            }
        }
        lemma_holds_split(b, pos, frames(init), frame(l.last()));
        lemma_parse_frames(b, pos, init);
        assert(l.last().len() <= u64::MAX) by {
            assert(l.last() == l[l.len() - 1]);
        }
        lemma_parse_frame(b, pos + frames(init).len(), l.last());
        assert(init.push(l.last()) =~= l);
    }
}

/// A list of byte strings reads back.
pub proof fn lemma_parse_list(b: Seq<u8>, pos: int, l: Seq<Seq<u8>>)
    requires
        list_fits(l),
        holds_at(b, pos, frame_list(l)),
    ensures
        parse_list(b, pos) == Some((l, pos + frame_list(l).len())),
{
    lemma_le_round_trip();
    lemma_holds_split(b, pos, le_bytes(l.len() as u64), frames(l));
    lemma_parse_frames(b, pos + 8, l);
}

/// What a fixed read returns stands in the input.
pub proof fn lemma_fixed_parsed(b: Seq<u8>, pos: int)
    requires
        parse_fixed(b, pos) is Some,
    ensures
        parse_fixed(b, pos) matches Some((x, q)) && holds_at(b, pos, x) && x.len() == 32 && q
            == pos + 32,
{
}

/// What a frame read returns, framed again, stands in the input.
pub proof fn lemma_frame_parsed(b: Seq<u8>, pos: int)
    requires
        parse_frame(b, pos) is Some,
    ensures
        parse_frame(b, pos) matches Some((x, q)) && holds_at(b, pos, frame(x)) && x.len()
            <= u64::MAX && q == pos + frame(x).len(),
{
    lemma_le_round_trip();
    let w = b.subrange(pos, pos + 8);
    let (x, q) = parse_frame(b, pos)->0;
    assert(x.len() == le_value(w));
    assert(le_bytes(x.len() as u64) == w);
    lemma_holds_join(b, pos, w, x);
}

/// What a read of `n` frames returns, framed again, stands in the input.
pub proof fn lemma_frames_parsed(b: Seq<u8>, pos: int, n: nat)
    requires
        0 <= pos <= b.len(),
        n <= u64::MAX,
        parse_frames(b, pos, n) is Some,
    ensures
        parse_frames(b, pos, n) matches Some((l, q)) && l.len() == n && list_fits(l) && holds_at(
            b,
            pos,
            frames(l),
        ) && q == pos + frames(l).len(),
    decreases n,
{
    if n == 0 {
        assert(b.subrange(pos, pos) =~= Seq::<u8>::empty());
    } else {
        lemma_frames_parsed(b, pos, (n - 1) as nat);
        let (init, q) = parse_frames(b, pos, (n - 1) as nat)->0;
        lemma_frame_parsed(b, q);
        let (x, r) = parse_frame(b, q)->0;
        let l = init.push(x);
        assert(l.drop_last() =~= init);
        assert(l.last() == x);
        lemma_holds_join(b, pos, frames(init), frame(x));
        assert forall|i: int| 0 <= i < l.len() implies #[trigger] l[i].len() <= u64::MAX by {
            if i < init.len() {
                assert(l[i] == init[i]);
            }
        }
    }
}

/// What a list read returns, framed again, stands in the input.
pub proof fn lemma_list_parsed(b: Seq<u8>, pos: int)
    requires
        parse_list(b, pos) is Some,
    ensures
        parse_list(b, pos) matches Some((l, q)) && list_fits(l) && holds_at(b, pos, frame_list(l))
            && q == pos + frame_list(l).len(),
{
    lemma_le_round_trip();
    let w = b.subrange(pos, pos + 8);
    let n = le_value(w) as nat;
    lemma_frames_parsed(b, pos + 8, n);
    let (l, q) = parse_list(b, pos)->0;
    assert(le_bytes(l.len() as u64) == w);
    lemma_holds_join(b, pos, w, frames(l));
}

/// Once a frame fails to read, no longer run of frames reads.
proof fn lemma_frames_stop(b: Seq<u8>, pos: int, i: nat, m: nat)
    requires
        i < m,
        parse_frames(b, pos, i) matches Some((l, q)) && parse_frame(b, q) is None,
    ensures
        parse_frames(b, pos, m) is None,
    decreases m,
{
    if m > i + 1 {
        lemma_frames_stop(b, pos, i, (m - 1) as nat);
    }
}

/// Reads the 32 bytes at `pos`.
pub fn read_fixed(b: &[u8], pos: usize) -> (r: Option<([u8; 32], usize)>)
    ensures
        match parse_fixed(b@, pos as int) {
            Some((x, q)) => r matches Some((a, p)) && a@ == x && p == q,
            None => r is None,
        },
{
    if pos > b.len() || b.len() - pos < 32 {
        return None;
    }
    let len = b.len();
    let mut a = [0u8; 32];
    let mut i: usize = 0;
    while i < 32
        invariant
            len == b@.len(),
            pos + 32 <= len,
            0 <= i <= 32,
            forall|j: int| 0 <= j < i ==> a@[j] == b@[pos + j],
        decreases 32 - i,
    {
        a[i] = b[pos + i];
        i = i + 1;
    }
    assert(a@ =~= b@.subrange(pos as int, pos + 32));
    Some((a, pos + 32))
}

/// Copies `b[start..end]`.
fn copy_range(b: &[u8], start: usize, end: usize) -> (r: Vec<u8>)
    requires
        start <= end <= b@.len(),
    ensures
        r@ == b@.subrange(start as int, end as int),
{
    let mut out: Vec<u8> = Vec::with_capacity(end - start);
    let mut i: usize = start;
    while i < end
        invariant
            start <= i <= end <= b@.len(),
            out@ == b@.subrange(start as int, i as int),
        decreases end - i,
    {
        out.push(b[i]);
        assert(b@.subrange(start as int, i + 1) =~= b@.subrange(start as int, i as int).push(
            b@[i as int],
        ));
        i = i + 1;
    }
    out
}

/// Reads the little-endian word at `pos`.
fn read_word(b: &[u8], pos: usize) -> (r: u64)
    requires
        pos + 8 <= b@.len(),
    ensures
        r == le_value(b@.subrange(pos as int, pos + 8)),
{
    let _len = b.len();
    let w = copy_range(b, pos, pos + 8);
    vstd::bytes::u64_from_le_bytes(w.as_slice())
}

/// Reads the byte string framed at `pos`.
pub fn read_frame(b: &[u8], pos: usize) -> (r: Option<(Vec<u8>, usize)>)
    ensures
        match parse_frame(b@, pos as int) {
            Some((x, q)) => r matches Some((v, p)) && v@ == x && p == q,
            None => r is None,
        },
{
    if pos > b.len() || b.len() - pos < 8 {
        return None;
    }
    let n = read_word(b, pos);
    let room = b.len() - pos - 8;
    if n > room as u64 {
        return None;
    }
    let start = pos + 8;
    let end = start + n as usize;
    let v = copy_range(b, start, end);
    Some((v, end))
}

/// Reads the list of byte strings at `pos`.
pub fn read_list(b: &[u8], pos: usize) -> (r: Option<(Vec<Vec<u8>>, usize)>)
    ensures
        match parse_list(b@, pos as int) {
            Some((l, q)) => r matches Some((v, p)) && byte_strings(v@) == l && p == q,
            None => r is None,
        },
{
    if pos > b.len() || b.len() - pos < 8 {
        return None;
    }
    let n = read_word(b, pos);
    let mut items: Vec<Vec<u8>> = Vec::new();
    let mut at: usize = pos + 8;
    let mut i: u64 = 0;
    while i < n
        invariant
            pos + 8 <= b@.len(),
            n == le_value(b@.subrange(pos as int, pos + 8)),
            0 <= i <= n,
            parse_frames(b@, pos + 8, i as nat) == Some((byte_strings(items@), at as int)),
        decreases n - i,
    {
        match read_frame(b, at) {
            Some((x, next)) => {
                let ghost before = byte_strings(items@);
                let ghost xv = x@;
                items.push(x);
                proof {
                    assert(byte_strings(items@) =~= before.push(xv));
                }
                at = next;
            },
            None => {
                proof {
                    lemma_frames_stop(b@, pos + 8, i as nat, n as nat);
                }
                return None;
            },
        }
        i = i + 1;
    }
    Some((items, at))
}

/// Appends `x` behind its length.
pub fn push_frame(out: &mut Vec<u8>, x: &[u8])
    ensures
        final(out)@ == old(out)@ + frame(x@),
{
    push_u64_le(out, x.len() as u64);
    append_bytes(out, x);
    proof {
        assert(old(out)@ + le_bytes(x@.len() as u64) + x@ =~= old(out)@ + frame(x@));
    }
}

/// Appends the list `l` behind its count.
pub fn push_list(out: &mut Vec<u8>, l: &Vec<Vec<u8>>)
    ensures
        final(out)@ == old(out)@ + frame_list(byte_strings(l@)),
{
    push_u64_le(out, l.len() as u64);
    let ghost start = out@;
    let mut i: usize = 0;
    while i < l.len()
        invariant
            0 <= i <= l@.len(),
            out@ == start + frames(byte_strings(l@).subrange(0, i as int)),
        decreases l@.len() - i,
    {
        push_frame(out, l[i].as_slice());
        proof {
            let s = byte_strings(l@).subrange(0, i + 1);
            assert(s.drop_last() =~= byte_strings(l@).subrange(0, i as int));
            assert(s.last() == l[i as int]@);
        }
        i = i + 1;
    }
    proof {
        assert(byte_strings(l@).subrange(0, l@.len() as int) =~= byte_strings(l@));
        assert(old(out)@ + le_bytes(l@.len() as u64) + frames(byte_strings(l@)) =~= old(out)@
            + frame_list(byte_strings(l@)));
    }
}

} // verus!
