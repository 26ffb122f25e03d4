//! Lexicographic ordering of key strings.
//!
//! `ls` promises its keys in ascending lexicographic order; the store keeps
//! its entries sorted by this order. Characters compare by code point.

use vstd::prelude::*;

verus! {

/// Strict lexicographic order on character sequences: `a` comes before `b`
/// when `a` is a proper prefix of `b`, or when `a` is smaller at the first
/// position where the two differ.
pub open spec fn lex_lt(a: Seq<char>, b: Seq<char>) -> bool
    decreases a.len(),
{
    if b.len() == 0 {
        false
    } else if a.len() == 0 {
        true
    } else if a[0] == b[0] {
        lex_lt(a.skip(1), b.skip(1))
    } else {
        a[0] < b[0]
    }
}

/// No sequence comes before itself.
pub proof fn lemma_lex_lt_irreflexive(a: Seq<char>)
    ensures
        !lex_lt(a, a),
    decreases a.len(),
{
    if a.len() > 0 {
        lemma_lex_lt_irreflexive(a.skip(1));
    }
}

/// Any two sequences are ordered one way or the other, or are equal.
pub proof fn lemma_lex_lt_total(a: Seq<char>, b: Seq<char>)
    ensures
        lex_lt(a, b) || lex_lt(b, a) || a =~= b,
    decreases a.len(),
{
    if a.len() > 0 && b.len() > 0 && a[0] == b[0] {
        lemma_lex_lt_total(a.skip(1), b.skip(1));
        if !lex_lt(a, b) && !lex_lt(b, a) {
            assert(a.skip(1) =~= b.skip(1));
            assert forall|j: int| 0 <= j < a.len() implies a[j] == b[j] by {
                if j >= 1 {
                    assert(a[j] == a.skip(1)[j - 1]);
                    assert(b[j] == b.skip(1)[j - 1]);
                }
            }
            assert(a =~= b);
        }
    }
}

/// The order is transitive.
pub proof fn lemma_lex_lt_transitive(a: Seq<char>, b: Seq<char>, c: Seq<char>)
    requires
        lex_lt(a, b),
        lex_lt(b, c),
    ensures
        lex_lt(a, c),
    decreases a.len(),
{
    if a.len() > 0 && b.len() > 0 && c.len() > 0 && a[0] == b[0] && b[0] == c[0] {
        lemma_lex_lt_transitive(a.skip(1), b.skip(1), c.skip(1));
    }
}

/// Where two sequences agree on their first `n` characters, their order is
/// decided by what remains.
proof fn lemma_lex_lt_common_prefix(a: Seq<char>, b: Seq<char>, n: int)
    requires
        0 <= n <= a.len(),
        n <= b.len(),
        forall|j: int| 0 <= j < n ==> a[j] == b[j],
    ensures
        lex_lt(a, b) == lex_lt(a.skip(n), b.skip(n)),
    decreases n,
{
    if n == 0 {
        assert(a.skip(0) =~= a);
        assert(b.skip(0) =~= b);
    } else {
        assert(a[0] == b[0]);
        assert(a.skip(1).skip(n - 1) =~= a.skip(n));
        assert(b.skip(1).skip(n - 1) =~= b.skip(n));
        lemma_lex_lt_common_prefix(a.skip(1), b.skip(1), n - 1);
    }
}

/// Decides whether `a` and `b` are the same string.
pub fn str_eq(a: &str, b: &str) -> (r: bool)
    ensures
        r == (a@ == b@),
{
    let a_len = a.unicode_len();
    let b_len = b.unicode_len();
    if a_len != b_len {
        return false;
    }
    let mut i: usize = 0;
    while i < a_len
        invariant
            a_len == a@.len(),
            a_len == b@.len(),
            0 <= i <= a_len,
            forall|j: int| 0 <= j < i ==> a@[j] == b@[j],
        decreases a_len - i,
    {
        if a.get_char(i) != b.get_char(i) {
            return false;
        }
        i = i + 1;
    }
    proof {
        assert(a@ =~= b@);
    }
    true
}

/// Decides whether `a` comes strictly before `b` in lexicographic order.
pub fn str_lex_lt(a: &str, b: &str) -> (r: bool)
    ensures
        r == lex_lt(a@, b@),
{
    let a_len = a.unicode_len();
    let b_len = b.unicode_len();
    let mut i: usize = 0;
    while i < a_len && i < b_len
        invariant
            a_len == a@.len(),
            b_len == b@.len(),
            0 <= i <= a_len,
            0 <= i <= b_len,
            forall|j: int| 0 <= j < i ==> a@[j] == b@[j],
        decreases a_len - i,
    {
        let ca = a.get_char(i);
        let cb = b.get_char(i);
        if ca != cb {
            proof {
                lemma_lex_lt_common_prefix(a@, b@, i as int);
            }
            return ca < cb;
        }
        i = i + 1;
    }
    proof {
        lemma_lex_lt_common_prefix(a@, b@, i as int);
    }
    a_len < b_len
}

} // verus!
