//! Byte-wise lexicographic order on byte strings.

use vstd::prelude::*;

verus! {

/// `a` and `b` hold the same bytes at every position below `k`.
pub open spec fn agree_below(a: Seq<u8>, b: Seq<u8>, k: int) -> bool {
    forall|j: int| 0 <= j < k ==> a[j] == b[j]
}

/// Position `k` shows that `a` is not greater than `b`: the two agree below
/// `k`, and there either `a` ends or `a` holds the smaller byte.
pub open spec fn le_witness(a: Seq<u8>, b: Seq<u8>, k: int) -> bool {
    &&& 0 <= k <= a.len()
    &&& k <= b.len()
    &&& agree_below(a, b, k)
    &&& (k == a.len() || (k < b.len() && a[k] < b[k]))
}

/// `a <= b` in the lexicographic order of unsigned byte values: `a` is a
/// prefix of `b`, or `a` holds the smaller byte where the two first differ.
pub open spec fn lex_le(a: Seq<u8>, b: Seq<u8>) -> bool {
    exists|k: int| le_witness(a, b, k)
}

/// `a >= b` in the same order.
pub open spec fn lex_ge(a: Seq<u8>, b: Seq<u8>) -> bool {
    lex_le(b, a)
}

/// Whether `a <= b`, byte by byte.
pub fn bytes_le(a: &[u8], b: &[u8]) -> (r: bool)
    ensures
        r == lex_le(a@, b@),
{
    let mut i: usize = 0;
    while i < a.len() && i < b.len() && a[i] == b[i]
        invariant
            i <= a@.len(),
            i <= b@.len(),
            agree_below(a@, b@, i as int),
        decreases a@.len() - i,
    {
        i = i + 1;
    }
    if i == a.len() {
        assert(le_witness(a@, b@, i as int));
        true
    } else if i == b.len() {
        assert forall|k: int| !le_witness(a@, b@, k) by {
            if le_witness(a@, b@, k) {
                assert(k < a@.len());
                assert(a@[k] == b@[k]);
            }
        }
        false
    } else {
        let r = a[i] < b[i];
        if r {
            assert(le_witness(a@, b@, i as int));
        } else {
            assert forall|k: int| !le_witness(a@, b@, k) by {
                if le_witness(a@, b@, k) {
                    if k < i {
                        assert(a@[k] == b@[k]);
                    } else if k > i {
                        assert(a@[i as int] == b@[i as int]);
                    }
                }
            }
        }
        r
    }
}

/// Whether `a >= b`, byte by byte.
pub fn bytes_ge(a: &[u8], b: &[u8]) -> (r: bool)
    ensures
        r == lex_ge(a@, b@),
{
    bytes_le(b, a)
}

/// The first position at or after `from` where `a` and `b` part: one of them
/// ends there, or they hold different bytes.
proof fn lemma_first_parting(a: Seq<u8>, b: Seq<u8>, from: int) -> (k: int)
    requires
        0 <= from <= a.len(),
        from <= b.len(),
        agree_below(a, b, from),
    ensures
        from <= k <= a.len(),
        k <= b.len(),
        agree_below(a, b, k),
        k == a.len() || k == b.len() || a[k] != b[k],
    decreases a.len() - from,
{
    if from == a.len() || from == b.len() || a[from] != b[from] {
        from
    } else {
        lemma_first_parting(a, b, from + 1)
    }
}

/// Every byte string is less than or equal to itself.
pub proof fn lemma_lex_le_reflexive(a: Seq<u8>)
    ensures
        lex_le(a, a),
{
    assert(le_witness(a, a, a.len() as int));
}

/// Of two byte strings, one is less than or equal to the other.
pub proof fn lemma_lex_le_total(a: Seq<u8>, b: Seq<u8>)
    ensures
        lex_le(a, b) || lex_le(b, a),
{
    let k = lemma_first_parting(a, b, 0);
    if k == a.len() || (k < b.len() && a[k] < b[k]) {
        assert(le_witness(a, b, k));
    } else {
        assert(le_witness(b, a, k));
    }
}

/// Two byte strings that are each less than or equal to the other are the
/// same string.
pub proof fn lemma_lex_le_antisymmetric(a: Seq<u8>, b: Seq<u8>)
    requires
        lex_le(a, b),
        lex_le(b, a),
    ensures
        a == b,
{
    let k1 = choose|k: int| le_witness(a, b, k);
    let k2 = choose|k: int| le_witness(b, a, k);
    if k1 < a.len() {
        if k1 < k2 {
            assert(b[k1] == a[k1]);
        }
        assert(false);
    }
    if k2 < b.len() {
        if k2 < k1 {
            assert(a[k2] == b[k2]);
        }
        assert(false);
    }
    assert(a =~= b);
}

/// The order passes along a chain: from `a <= b` and `b <= c` follows
/// `a <= c`.
pub proof fn lemma_lex_le_transitive(a: Seq<u8>, b: Seq<u8>, c: Seq<u8>)
    requires
        lex_le(a, b),
        lex_le(b, c),
    ensures
        lex_le(a, c),
{
    let k1 = choose|k: int| le_witness(a, b, k);
    let k2 = choose|k: int| le_witness(b, c, k);
    let k = if k1 <= k2 {
        k1
    } else {
        k2
    };
    assert forall|j: int| 0 <= j < k implies a[j] == c[j] by {
        assert(a[j] == b[j]);
        assert(b[j] == c[j]);
    }
    if k1 < k2 && k1 < a.len() {
        assert(b[k1] == c[k1]);
    }
    if k2 < k1 {
        assert(a[k2] == b[k2]);
    }
    assert(le_witness(a, c, k));
}

/// The order is that of unsigned byte values: two strings of one byte each
/// compare as their bytes do.
pub proof fn lemma_single_bytes_compare_by_value(x: u8, y: u8)
    ensures
        lex_le(seq![x], seq![y]) == (x <= y),
{
    let a = seq![x];
    let b = seq![y];
    if x < y {
        assert(le_witness(a, b, 0));
    } else if x == y {
        assert(le_witness(a, b, 1));
    } else {
        assert forall|k: int| !le_witness(a, b, k) by {
            if le_witness(a, b, k) {
                if k == 1 {
                    assert(a[0] == b[0]);
                }
            }
        }
    }
}

/// A string is less than or equal to each string that it begins.
pub proof fn lemma_prefix_is_le(a: Seq<u8>, b: Seq<u8>)
    requires
        a.is_prefix_of(b),
    ensures
        lex_le(a, b),
{
    assert(le_witness(a, b, a.len() as int));
}

} // verus!
