use vstd::prelude::*;

verus! {

broadcast use vstd::string::group_string_axioms;

/// The characters of `s`, one element each.
pub fn chars_of(s: &str) -> (v: Vec<char>)
    ensures
        v@ == s@,
{
    let mut v: Vec<char> = Vec::new();
    for c in it: s.chars()
        invariant
            v@ == it.seq().take(it.index() as int),
            it.seq() == s@,
    {
        v.push(c);
    }
    v
}

/// Relies on `String::push`, which appends one character.
#[verifier::external_body]
pub(crate) fn push_char(s: &mut String, c: char)
    ensures
        final(s)@ == old(s)@.push(c),
{
    s.push(c)
}

/// The characters with the Unicode `White_Space` property.
pub open spec fn is_white_space(c: char) -> bool {
    let u = c as u32;
    (0x09 <= u && u <= 0x0D) || u == 0x20 || u == 0x85 || u == 0xA0 || u == 0x1680 || (0x2000 <= u
        && u <= 0x200A) || u == 0x2028 || u == 0x2029 || u == 0x202F || u == 0x205F || u == 0x3000
}

/// Whether `c` has the Unicode `White_Space` property, as
/// `char::is_whitespace` tells it.
pub fn is_whitespace(c: char) -> (r: bool)
    ensures
        r == is_white_space(c),
{
    let u = c as u32;
    (0x09 <= u && u <= 0x0D) || u == 0x20 || u == 0x85 || u == 0xA0 || u == 0x1680 || (0x2000 <= u
        && u <= 0x200A) || u == 0x2028 || u == 0x2029 || u == 0x202F || u == 0x205F || u == 0x3000
}

/// The index of the first white-space character of `t` at or after `i`, or
/// `t.len()` when there is none.
pub open spec fn word_end(t: Seq<char>, i: int) -> int
    decreases t.len() - i,
{
    if i < 0 || i >= t.len() {
        t.len() as int
    } else if is_white_space(t[i]) {
        i
    } else {
        word_end(t, i + 1)
    }
}

/// The maximal runs of non-white-space characters of `t` from `i` on, in
/// order.
pub open spec fn words_from(t: Seq<char>, i: int) -> Seq<Seq<char>>
    decreases t.len() - i,
{
    if i < 0 || i >= t.len() {
        seq![]
    } else if is_white_space(t[i]) {
        words_from(t, i + 1)
    } else {
        let e = word_end(t, i);
        if i < e <= t.len() {
            seq![t.subrange(i, e)] + words_from(t, e)
        } else {
            seq![]
        }
    }
}

pub open spec fn string_views(v: Seq<String>) -> Seq<Seq<char>> {
    v.map_values(|s: String| s@)
}

proof fn lemma_word_end_bounds(t: Seq<char>, i: int)
    requires
        0 <= i <= t.len(),
    ensures
        i <= word_end(t, i) <= t.len(),
        forall|k: int| i <= k < word_end(t, i) ==> !is_white_space(#[trigger] t[k]),
    decreases t.len() - i,
{
    if i < t.len() && !is_white_space(t[i]) {
        lemma_word_end_bounds(t, i + 1);
    }
}

/// The string made of `t[from..to]`.
pub fn string_of(t: &Vec<char>, from: usize, to: usize) -> (r: String)
    requires
        from <= to <= t@.len(),
    ensures
        r@ == t@.subrange(from as int, to as int),
{
    let mut r = String::new();
    let mut i: usize = from;
    while i < to
        invariant
            from <= i <= to <= t@.len(),
            r@ == t@.subrange(from as int, i as int),
        decreases to - i,
    {
        push_char(&mut r, t[i]);
        assert(t@.subrange(from as int, i + 1) =~= t@.subrange(from as int, i as int).push(t@[i as int]));
        i = i + 1;
    }
    r
}

/// The white-space separated words of `t` from `start` on.
pub fn words(t: &Vec<char>, start: usize) -> (r: Vec<String>)
    requires
        start <= t@.len(),
    ensures
        string_views(r@) == words_from(t@, start as int),
{
    let mut out: Vec<String> = Vec::new();
    let mut i: usize = start;
    while i < t.len()
        invariant
            start <= i <= t@.len(),
            string_views(out@) + words_from(t@, i as int) == words_from(t@, start as int),
        decreases t@.len() - i,
    {
        if is_whitespace(t[i]) {
            i = i + 1;
        } else {
            let mut e: usize = i;
            proof {
                lemma_word_end_bounds(t@, i as int);
            }
            while e < t.len() && !is_whitespace(t[e])
                invariant
                    i <= e <= t@.len(),
                    word_end(t@, i as int) == word_end(t@, e as int),
                decreases t@.len() - e,
            {
                e = e + 1;
            }
            assert(i < e);
            let w = string_of(t, i, e);
            let ghost before = out@;
            out.push(w);
            assert(string_views(out@) =~= string_views(before).push(w@));
            assert(string_views(out@) + words_from(t@, e as int) =~= string_views(before) + (seq![
                w@,
            ] + words_from(t@, e as int)));
            i = e;
        }
    }
    assert(string_views(out@) =~= string_views(out@) + words_from(t@, i as int));
    out
}

/// Whether `p` occurs in `t` at index `i`.
pub open spec fn occurs_at(t: Seq<char>, p: Seq<char>, i: int) -> bool {
    0 <= i && i + p.len() <= t.len() && t.subrange(i, i + p.len()) == p
}

/// The index of the first occurrence of `p` in `t` at or after `i`, or `-1`.
pub open spec fn find_from(t: Seq<char>, p: Seq<char>, i: int) -> int
    decreases t.len() + 1 - i,
{
    if i < 0 || i + p.len() > t.len() {
        -1
    } else if occurs_at(t, p, i) {
        i
    } else {
        find_from(t, p, i + 1)
    }
}

pub proof fn lemma_find_from_occurs(t: Seq<char>, p: Seq<char>, i: int)
    requires
        0 <= i,
    ensures
        find_from(t, p, i) == -1 || (i <= find_from(t, p, i) && occurs_at(t, p, find_from(t, p, i))),
    decreases t.len() + 1 - i,
{
    if i + p.len() <= t.len() && !occurs_at(t, p, i) {
        lemma_find_from_occurs(t, p, i + 1);
    }
}

pub(crate) fn occurs(t: &Vec<char>, p: &Vec<char>, i: usize) -> (r: bool)
    ensures
        r == occurs_at(t@, p@, i as int),
{
    if i > t.len() || t.len() - i < p.len() {
        return false;
    }
    let n = t.len();
    let mut k: usize = 0;
    while k < p.len()
        invariant
            n == t@.len(),
            k <= p@.len(),
            i + p@.len() <= t@.len(),
            forall|j: int| 0 <= j < k ==> t@[i + j] == p@[j],
        decreases p@.len() - k,
    {
        if t[i + k] != p[k] {
            assert(t@.subrange(i as int, i + p@.len())[k as int] != p@[k as int]);
            return false;
        }
        k = k + 1;
    }
    assert(t@.subrange(i as int, i + p@.len()) =~= p@);
    true
}

/// The index of the first occurrence of `p` in `t`.
pub fn index_of(t: &Vec<char>, p: &Vec<char>) -> (r: Option<usize>)
    ensures
        match r {
            Some(i) => find_from(t@, p@, 0) == i as int,
            None => find_from(t@, p@, 0) == -1,
        },
{
    if p.len() > t.len() {
        return None;
    }
    let last = t.len() - p.len();
    let mut i: usize = 0;
    loop
        invariant
            i <= last,
            last == t@.len() - p@.len(),
            find_from(t@, p@, 0) == find_from(t@, p@, i as int),
        decreases last - i,
    {
        if occurs(t, p, i) {
            return Some(i);
        }
        if i == last {
            assert(find_from(t@, p@, i + 1) == -1);
            return None;
        }
        i = i + 1;
    }
}

} // verus!
