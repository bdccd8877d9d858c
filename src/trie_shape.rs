//! The shape of Merkle-Patricia proof nodes that the storage check accepts.
//!
//! A node is an RLP list of 17 items (a branch) or of 2 items (a leaf or an
//! extension). The accepted shapes are the ones a storage proof of hashed
//! keys has: every branch child is empty or a 32-byte hash, an extension's
//! child is a 32-byte hash, and the key paths of all nodes, with one nibble
//! per branch, add up to at most 64 nibbles. Nodes encoded in place and
//! over-long paths are refused before the trie verifier runs.
use vstd::prelude::*;

verus! {

/// The most nibbles a path of the storage trie holds.
pub const MAX_PATH_NIBBLES: u64 = 64;

/// The big-endian value of a byte string.
pub open spec fn be_value(s: Seq<u8>) -> nat
    decreases s.len(),
{
    if s.len() == 0 {
        0
    } else {
        be_value(s.drop_last()) * 256 + s.last() as nat
    }
}

/// The payload of an RLP item whose payload length `n` follows the header
/// byte at `pos`.
pub open spec fn short_item(b: Seq<u8>, pos: int, n: int) -> Option<(int, int)> {
    if pos + 1 + n <= b.len() {
        Some((pos + 1, pos + 1 + n))
    } else {
        None
    }
}

/// The payload of an RLP item whose payload length takes the `ll` bytes
/// after the header byte at `pos`; lengths of more than four bytes are not
/// taken.
pub open spec fn long_item(b: Seq<u8>, pos: int, ll: int) -> Option<(int, int)> {
    if ll <= 4 && pos + 1 + ll <= b.len() {
        let n = be_value(b.subrange(pos + 1, pos + 1 + ll));
        if pos + 1 + ll + n <= b.len() {
            Some((pos + 1 + ll, pos + 1 + ll + n))
        } else {
            None
        }
    } else {
        None
    }
}

/// The payload `[start, end)` of the RLP item at `pos`; `end` is also where
/// the item ends.
pub open spec fn rlp_item(b: Seq<u8>, pos: int) -> Option<(int, int)> {
    if pos < 0 || pos >= b.len() {
        None
    } else {
        let h = b[pos];
        if h < 0x80 {
            Some((pos, pos + 1))
        } else if h <= 0xb7 {
            short_item(b, pos, h - 0x80)
        } else if h <= 0xbf {
            long_item(b, pos, h - 0xb7)
        } else if h <= 0xf7 {
            short_item(b, pos, h - 0xc0)
        } else {
            long_item(b, pos, h - 0xf7)
        }
    }
}

/// The positions of the items that fill `[pos, end)` exactly.
pub open spec fn rlp_items(b: Seq<u8>, pos: int, end: int) -> Option<Seq<int>>
    decreases end - pos,
{
    if pos >= end {
        if pos == end {
            Some(Seq::empty())
        } else {
            None
        }
    } else {
        match rlp_item(b, pos) {
            Some((_, e)) => if pos < e && e <= end {
                match rlp_items(b, e, end) {
                    Some(rest) => Some(seq![pos] + rest),
                    None => None,
                }
            } else {
                None
            },
            None => None,
        }
    }
}

/// A branch child: the empty string, or a 32-byte string.
pub open spec fn hash_or_empty(b: Seq<u8>, pos: int) -> bool {
    ||| (0 <= pos < b.len() && b[pos] == 0x80)
    ||| hash_item(b, pos)
}

/// A 32-byte string.
pub open spec fn hash_item(b: Seq<u8>, pos: int) -> bool {
    0 <= pos && pos + 33 <= b.len() && b[pos] == 0xa0
}

/// The key path of a leaf or extension at `pos`: whether it is a leaf, and
/// its length in nibbles.
pub open spec fn key_path(b: Seq<u8>, pos: int) -> Option<(bool, nat)> {
    if 0 <= pos < b.len() {
        let h = b[pos];
        let (first, len) = if h < 0x80 {
            (pos, 1int)
        } else {
            (pos + 1, h - 0x80)
        };
        if h <= 0xb7 && len >= 1 && first + len <= b.len() {
            let flag = b[first] / 16;
            if (flag == 0 || flag == 2) && len - 1 <= 32 {
                Some((flag == 2, (2 * (len - 1)) as nat))
            } else if (flag == 1 || flag == 3) && len - 1 <= 31 {
                Some((flag == 3, (2 * (len - 1) + 1) as nat))
            } else {
                None
            }
        } else {
            None
        }
    } else {
        None
    }
}

/// The nibbles a node of an accepted shape adds to the walked path.
pub open spec fn node_path_len(n: Seq<u8>) -> Option<nat> {
    match rlp_item(n, 0) {
        Some((start, end)) => if n[0] >= 0xc0 {
            match rlp_items(n, start, end) {
                Some(items) => if items.len() == 17 {
                    if forall|i: int| 0 <= i < 16 ==> #[trigger] hash_or_empty(n, items[i]) {
                        Some(1)
                    } else {
                        None
                    }
                } else if items.len() == 2 {
                    match key_path(n, items[0]) {
                        Some((leaf, k)) => if leaf || hash_item(n, items[1]) {
                            Some(k)
                        } else {
                            None
                        },
                        None => None,
                    }
                } else {
                    None
                },
                None => None,
            }
        } else {
            None
        },
        None => None,
    }
}

/// The path length of the first `k` nodes, when each has an accepted shape.
pub open spec fn nodes_path_len(nodes: Seq<Seq<u8>>, k: nat) -> Option<nat>
    decreases k,
{
    if k == 0 {
        Some(0)
    } else {
        match nodes_path_len(nodes, (k - 1) as nat) {
            Some(t) => match node_path_len(nodes[k - 1]) {
                Some(m) => Some(t + m),
                None => None,
            },
            None => None,
        }
    }
}

/// Every node has an accepted shape and the paths fit the trie's depth.
pub open spec fn trie_nodes_safe(nodes: Seq<Seq<u8>>) -> bool {
    nodes_path_len(nodes, nodes.len()) matches Some(t) && t <= MAX_PATH_NIBBLES
}

proof fn lemma_path_len_grows(nodes: Seq<Seq<u8>>, k: nat, m: nat)
    requires
        k <= m,
        nodes_path_len(nodes, k) matches Some(t) && t > MAX_PATH_NIBBLES,
    ensures
        !(nodes_path_len(nodes, m) matches Some(u) && u <= MAX_PATH_NIBBLES),
    decreases m - k,
{
    if k < m {
        lemma_path_len_grows(nodes, k, (m - 1) as nat);
    }
}

proof fn lemma_path_len_stops(nodes: Seq<Seq<u8>>, k: nat, m: nat)
    requires
        k <= m,
        nodes_path_len(nodes, k) is None,
    ensures
        nodes_path_len(nodes, m) is None,
    decreases m - k,
{
    if k < m {
        lemma_path_len_stops(nodes, k, (m - 1) as nat);
    }
}

/// The big-endian value of `b[start..end]`, for at most four bytes.
fn read_be(b: &[u8], start: usize, end: usize) -> (r: u64)
    requires
        start <= end <= b@.len(),
        end - start <= 4,
    ensures
        r == be_value(b@.subrange(start as int, end as int)),
        r < 0x1_0000_0000,
{
    let mut v: u64 = 0;
    let mut i: usize = start;
    while i < end
        invariant
            start <= i <= end <= b@.len(),
            end - start <= 4,
            v == be_value(b@.subrange(start as int, i as int)),
            v < pow256((i - start) as nat),
        decreases end - i,
    {
        let ghost s = b@.subrange(start as int, i + 1);
        proof {
            assert(s.drop_last() =~= b@.subrange(start as int, i as int));
            lemma_pow256_bound((i - start) as nat);
            assert(v * 256 + b[i as int] < pow256((i - start) as nat) * 256) by (nonlinear_arith)
                requires
                    v < pow256((i - start) as nat),
                    b[i as int] < 256,
            ;
        }
        v = v * 256 + b[i] as u64;
        i = i + 1;
    }
    proof {
        lemma_pow256_bound((end - start) as nat);
    }
    v
}

/// `256` to the power `k`.
pub open spec fn pow256(k: nat) -> nat
    decreases k,
{
    if k == 0 {
        1
    } else {
        256 * pow256((k - 1) as nat)
    }
}

proof fn lemma_pow256_bound(k: nat)
    requires
        k <= 4,
    ensures
        pow256(k) <= 0x1_0000_0000,
        pow256(k) >= 1,
        k < 4 ==> pow256(k) * 256 <= 0x1_0000_0000,
        pow256(k + 1) == pow256(k) * 256,
{
    reveal_with_fuel(pow256, 6);
}

/// Finds the payload of the RLP item at `pos`.
pub fn read_rlp_item(b: &[u8], pos: usize) -> (r: Option<(usize, usize)>)
    ensures
        match rlp_item(b@, pos as int) {
            Some((s, e)) => r matches Some((rs, re)) && rs == s && re == e,
            None => r is None,
        },
{
    let len = b.len();
    if pos >= len {
        return None;
    }
    let h = b[pos];
    if h < 0x80 {
        return Some((pos, pos + 1));
    }
    let (is_long, small) = if h <= 0xb7 {
        (false, (h - 0x80) as usize)
    } else if h <= 0xbf {
        (true, (h - 0xb7) as usize)
    } else if h <= 0xf7 {
        (false, (h - 0xc0) as usize)
    } else {
        (true, (h - 0xf7) as usize)
    };
    if !is_long {
        if small > len - pos - 1 {
            return None;
        }
        return Some((pos + 1, pos + 1 + small));
    }
    if small > 4 || small > len - pos - 1 {
        return None;
    }
    let start = pos + 1 + small;
    let n = read_be(b, pos + 1, start);
    if n > (len - start) as u64 {
        return None;
    }
    Some((start, start + n as usize))
}

/// Lists the positions of the items that fill `b[start..end]` exactly.
fn read_rlp_items(b: &[u8], start: usize, end: usize) -> (r: Option<Vec<usize>>)
    requires
        start <= end <= b@.len(),
    ensures
        match rlp_items(b@, start as int, end as int) {
            Some(items) => r matches Some(v) && v@.len() == items.len() && forall|i: int|
                0 <= i < items.len() ==> v@[i] as int == #[trigger] items[i],
            None => r is None,
        },
{
    let mut found: Vec<usize> = Vec::new();
    let mut pos = start;
    while pos < end
        invariant
            start <= pos <= end <= b@.len(),
            rlp_items(b@, start as int, end as int) == match rlp_items(b@, pos as int, end as int) {
                Some(rest) => Some(Seq::new(found@.len(), |i: int| found@[i] as int) + rest),
                None => None::<Seq<int>>,
            },
        decreases end - pos,
    {
        match read_rlp_item(b, pos) {
            Some((_, e)) => {
                if e <= pos || e > end {
                    return None;
                }
                let ghost before = Seq::new(found@.len(), |i: int| found@[i] as int);
                found.push(pos);
                proof {
                    let after = Seq::new(found@.len(), |i: int| found@[i] as int);
                    assert(after =~= before.push(pos as int));
                    match rlp_items(b@, e as int, end as int) {
                        Some(rest) => {
                            assert(before + (seq![pos as int] + rest) =~= after + rest);
                        },
                        None => {},
                    }
                }
                pos = e;
            },
            None => {
                return None;
            },
        }
    }
    proof {
        let items = Seq::new(found@.len(), |i: int| found@[i] as int);
        assert(items + Seq::<int>::empty() =~= items);
    }
    Some(found)
}

/// Whether the item at `pos` is empty or a 32-byte string.
fn is_hash_or_empty(b: &[u8], pos: usize) -> (r: bool)
    ensures
        r == hash_or_empty(b@, pos as int),
{
    let len = b.len();
    if pos >= len {
        return false;
    }
    b[pos] == 0x80 || (b[pos] == 0xa0 && len - pos >= 33)
}

/// Whether the item at `pos` is a 32-byte string.
fn is_hash(b: &[u8], pos: usize) -> (r: bool)
    ensures
        r == hash_item(b@, pos as int),
{
    let len = b.len();
    pos < len && b[pos] == 0xa0 && len - pos >= 33
}

/// Reads the key path of the leaf or extension at `pos`.
fn read_key_path(b: &[u8], pos: usize) -> (r: Option<(bool, u64)>)
    ensures
        match key_path(b@, pos as int) {
            Some((leaf, k)) => r matches Some((rl, rk)) && rl == leaf && rk == k,
            None => r is None,
        },
{
    let len = b.len();
    if pos >= len {
        return None;
    }
    let h = b[pos];
    if h > 0xb7 {
        return None;
    }
    let (first, n) = if h < 0x80 {
        (pos, 1usize)
    } else {
        (pos + 1, (h - 0x80) as usize)
    };
    if n < 1 || first >= len || n > len - first {
        return None;
    }
    let flag = b[first] / 16;
    let rest = (n - 1) as u64;
    if (flag == 0 || flag == 2) && rest <= 32 {
        Some((flag == 2, 2 * rest))
    } else if (flag == 1 || flag == 3) && rest <= 31 {
        Some((flag == 3, 2 * rest + 1))
    } else {
        None
    }
}

/// The nibbles that a node adds to the walked path, if it has an accepted
/// shape.
pub fn node_path_nibbles(n: &[u8]) -> (r: Option<u64>)
    ensures
        match node_path_len(n@) {
            Some(k) => r == Some(k as u64) && k <= MAX_PATH_NIBBLES,
            None => r is None,
        },
{
    let (start, end) = match read_rlp_item(n, 0) {
        Some(x) => x,
        None => return None,
    };
    if n[0] < 0xc0 {
        return None;
    }
    let items = match read_rlp_items(n, start, end) {
        Some(v) => v,
        None => return None,
    };
    let ghost spec_items = rlp_items(n@, start as int, end as int)->0;
    assert(rlp_item(n@, 0) == Some((start as int, end as int)));
    assert(rlp_items(n@, start as int, end as int) == Some(spec_items));
    assert(spec_items.len() == items@.len());
    if items.len() == 17 {
        let mut i: usize = 0;
        while i < 16
            invariant
                n@.len() > 0 && n@[0] >= 0xc0,
                rlp_item(n@, 0) == Some((start as int, end as int)),
                rlp_items(n@, start as int, end as int) == Some(spec_items),
                items@.len() == 17,
                spec_items.len() == 17,
                forall|j: int| 0 <= j < 17 ==> items@[j] as int == #[trigger] spec_items[j],
                0 <= i <= 16,
                forall|j: int| 0 <= j < i ==> #[trigger] hash_or_empty(n@, spec_items[j]),
            decreases 16 - i,
        {
            if !is_hash_or_empty(n, items[i]) {
                assert(items@[i as int] as int == spec_items[i as int]);
                assert(!hash_or_empty(n@, spec_items[i as int]));
                assert(!(forall|j: int| 0 <= j < 16 ==> #[trigger] hash_or_empty(n@, spec_items[j])));
                return None;
            }
            assert(items@[i as int] as int == spec_items[i as int]);
            i = i + 1;
        }
        Some(1)
    } else if items.len() == 2 {
        assert(items@[0] as int == spec_items[0]);
        assert(items@[1] as int == spec_items[1]);
        match read_key_path(n, items[0]) {
            Some((leaf, k)) => if leaf || is_hash(n, items[1]) {
                Some(k)
            } else {
                None
            },
            None => None,
        }
    } else {
        None
    }
}

/// Whether the proof nodes have the accepted shapes and their paths fit.
pub fn check_trie_nodes(nodes: &Vec<Vec<u8>>) -> (r: bool)
    ensures
        r == trie_nodes_safe(crate::wire::byte_strings(nodes@)),
{
    let ghost ns = crate::wire::byte_strings(nodes@);
    let mut total: u64 = 0;
    let mut i: usize = 0;
    while i < nodes.len()
        invariant
            ns == crate::wire::byte_strings(nodes@),
            0 <= i <= nodes@.len(),
            nodes_path_len(ns, i as nat) == Some(total as nat),
            total <= MAX_PATH_NIBBLES,
        decreases nodes@.len() - i,
    {
        assert(ns[i as int] == nodes@[i as int]@);
        match node_path_nibbles(nodes[i].as_slice()) {
            Some(k) => {
                total = total + k;
                if total > MAX_PATH_NIBBLES {
                    proof {
                        lemma_path_len_grows(ns, (i + 1) as nat, ns.len());
                    }
                    return false;
                }
            },
            None => {
                proof {
                    lemma_path_len_stops(ns, (i + 1) as nat, ns.len());
                }
                return false;
            },
        }
        i = i + 1;
    }
    true
}

} // verus!
