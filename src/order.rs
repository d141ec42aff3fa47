use vstd::prelude::*;

verus! {

/// Three-way lexicographic comparison of two integer sequences from position
/// `i` on: `-1` when `a` comes first, `1` when `b` comes first, `0` when equal.
/// A sequence that is a proper prefix of the other comes first.
pub open spec fn lex_cmp_from(a: Seq<u32>, b: Seq<u32>, i: int) -> int
    decreases a.len() - i,
{
    if i < 0 || i >= a.len() {
        if i >= 0 && i < b.len() {
            -1
        } else {
            0
        }
    } else if i >= b.len() {
        1
    } else if a[i] < b[i] {
        -1
    } else if a[i] > b[i] {
        1
    } else {
        lex_cmp_from(a, b, i + 1)
    }
}

/// Lexicographic order on sequences of `u32`, as a three-way result.
pub open spec fn lex_cmp(a: Seq<u32>, b: Seq<u32>) -> int {
    lex_cmp_from(a, b, 0)
}

pub proof fn lemma_lex_cmp_from_antisym(a: Seq<u32>, b: Seq<u32>, i: int)
    requires
        0 <= i,
    ensures
        lex_cmp_from(a, b, i) == -lex_cmp_from(b, a, i),
        -1 <= lex_cmp_from(a, b, i) <= 1,
    decreases a.len() - i,
{
    if i < a.len() && i < b.len() && a[i] == b[i] {
        lemma_lex_cmp_from_antisym(a, b, i + 1);
    }
}

pub proof fn lemma_lex_cmp_from_eq(a: Seq<u32>, b: Seq<u32>, i: int)
    requires
        0 <= i <= a.len(),
        a.subrange(0, i) == b.subrange(0, i),
        i <= b.len(),
    ensures
        lex_cmp_from(a, b, i) == 0 <==> a == b,
    decreases a.len() - i,
{
    if i < a.len() && i < b.len() && a[i] == b[i] {
        assert(a.subrange(0, i + 1) =~= a.subrange(0, i).push(a[i]));
        assert(b.subrange(0, i + 1) =~= b.subrange(0, i).push(b[i]));
        lemma_lex_cmp_from_eq(a, b, i + 1);
    } else if i == a.len() && i == b.len() {
        assert(a =~= a.subrange(0, i));
        assert(b =~= b.subrange(0, i));
    } else {
        if a == b {
            assert(false);
        }
    }
}

pub proof fn lemma_lex_cmp_from_trans(a: Seq<u32>, b: Seq<u32>, c: Seq<u32>, i: int)
    requires
        0 <= i,
        lex_cmp_from(a, b, i) < 0,
        lex_cmp_from(b, c, i) < 0,
    ensures
        lex_cmp_from(a, c, i) < 0,
    decreases a.len() - i,
{
    if i < a.len() && i < b.len() && i < c.len() && a[i] == b[i] && b[i] == c[i] {
        lemma_lex_cmp_from_trans(a, b, c, i + 1);
    }
}

/// `lex_cmp` is a total order: antisymmetric, transitive, and zero exactly on
/// equal sequences.
pub proof fn lemma_lex_cmp_total_order(a: Seq<u32>, b: Seq<u32>, c: Seq<u32>)
    ensures
        lex_cmp(a, b) == -lex_cmp(b, a),
        -1 <= lex_cmp(a, b) <= 1,
        lex_cmp(a, b) == 0 <==> a == b,
        lex_cmp(a, b) < 0 && lex_cmp(b, c) < 0 ==> lex_cmp(a, c) < 0,
{
    lemma_lex_cmp_from_antisym(a, b, 0);
    assert(a.subrange(0, 0) =~= b.subrange(0, 0));
    lemma_lex_cmp_from_eq(a, b, 0);
    if lex_cmp(a, b) < 0 && lex_cmp(b, c) < 0 {
        lemma_lex_cmp_from_trans(a, b, c, 0);
    }
}

/// Compares two keys lexicographically, returning `-1`, `0` or `1`.
pub fn compare_keys(a: &[u32], b: &[u32]) -> (r: i8)
    ensures
        r as int == lex_cmp(a@, b@),
{
    let mut i: usize = 0;
    while i < a.len() && i < b.len()
        invariant
            i <= a@.len(),
            i <= b@.len(),
            lex_cmp(a@, b@) == lex_cmp_from(a@, b@, i as int),
        decreases a@.len() - i,
    {
        if a[i] < b[i] {
            return -1;
        }
        if a[i] > b[i] {
            return 1;
        }
        i = i + 1;
    }
    if i < b.len() {
        -1
    } else if i < a.len() {
        1
    } else {
        0
    }
}

} // verus!
