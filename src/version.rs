use vstd::prelude::*;
use crate::text::chars_of;

verus! {

broadcast use vstd::string::group_string_axioms;

pub open spec fn is_digit(c: char) -> bool {
    '0' <= c && c <= '9'
}

pub open spec fn digit_value(c: char) -> nat {
    (c as u32 - '0' as u32) as nat
}

/// Number of consecutive decimal digits in `t` starting at `i`.
pub open spec fn digit_run(t: Seq<char>, i: int) -> nat
    decreases t.len() - i,
{
    if 0 <= i < t.len() && is_digit(t[i]) {
        1 + digit_run(t, i + 1)
    } else {
        0
    }
}

/// The decimal number written by the `n` characters of `t` starting at `i`.
pub open spec fn digits_value(t: Seq<char>, i: int, n: int) -> nat
    decreases n,
{
    if n <= 0 {
        0
    } else {
        10 * digits_value(t, i, n - 1) + digit_value(t[i + n - 1])
    }
}

/// Index of the first `'.'` in `t` at or after `j`, or `t.len()` when there is none.
pub open spec fn next_dot(t: Seq<char>, j: int) -> int
    decreases t.len() - j,
{
    if j < 0 || j >= t.len() {
        t.len() as int
    } else if t[j] == '.' {
        j
    } else {
        next_dot(t, j + 1)
    }
}

pub open spec fn saturate_u32(n: nat) -> u32 {
    if n > u32::MAX {
        u32::MAX
    } else {
        n as u32
    }
}

/// The version components written in `t` from `i` on: dot-separated fields,
/// each read as the number its leading digits spell (saturated at `u32::MAX`);
/// characters after the digits of a field are ignored, and the first field
/// that does not start with a digit ends the version.
pub open spec fn components_from(t: Seq<char>, i: int) -> Seq<u32>
    decreases t.len() - i,
{
    let n = digit_run(t, i);
    if i < 0 || n == 0 {
        seq![]
    } else {
        let v = saturate_u32(digits_value(t, i, n as int));
        let d = next_dot(t, i + n);
        if i < d < t.len() {
            seq![v] + components_from(t, d + 1)
        } else {
            seq![v]
        }
    }
}

pub open spec fn versioned_prefix() -> Seq<char> {
    seq!['l', 'i', 'b', 'c', 'l', 'a', 'n', 'g', '-']
}

pub open spec fn suffixed_prefix() -> Seq<char> {
    seq!['l', 'i', 'b', 'c', 'l', 'a', 'n', 'g', '.', 's', 'o', '.']
}

/// The version that a shared library file name carries: the numbers after
/// `libclang.so.` (as in `libclang.so.14.0.6`) or after `libclang-` (as in
/// `libclang-3.5.0.so`); empty for any other name.
pub open spec fn filename_version(f: Seq<char>) -> Seq<u32> {
    if f.len() >= 12 && f.take(12) == suffixed_prefix() {
        components_from(f, 12)
    } else if f.len() >= 9 && f.take(9) == versioned_prefix() {
        components_from(f, 9)
    } else {
        seq![]
    }
}

proof fn lemma_digits_value_monotone(t: Seq<char>, i: int, n: int)
    requires
        n >= 1,
        0 <= i,
        i + n <= t.len(),
        is_digit(t[i + n - 1]),
    ensures
        digits_value(t, i, n) >= digits_value(t, i, n - 1),
{
}

proof fn lemma_next_dot_after(t: Seq<char>, j: int)
    requires
        0 <= j <= t.len(),
    ensures
        next_dot(t, j) >= j,
        next_dot(t, j) <= t.len(),
        next_dot(t, j) < t.len() ==> t[next_dot(t, j)] == '.',
    decreases t.len() - j,
{
    if j < t.len() && t[j] != '.' {
        lemma_next_dot_after(t, j + 1);
    }
}

proof fn lemma_digit_run_bound(t: Seq<char>, i: int)
    requires
        0 <= i <= t.len(),
    ensures
        i + digit_run(t, i) <= t.len(),
    decreases t.len() - i,
{
    if i < t.len() && is_digit(t[i]) {
        lemma_digit_run_bound(t, i + 1);
    }
}

/// Reads the digits of `t` from `i` on. Returns the number of digits and
/// their value, saturated at `u32::MAX`.
pub(crate) fn read_digits(t: &Vec<char>, i: usize) -> (r: (usize, u32))
    requires
        i <= t@.len(),
    ensures
        r.0 == digit_run(t@, i as int),
        i + r.0 <= t@.len(),
        r.1 == saturate_u32(digits_value(t@, i as int, r.0 as int)),
{
    let mut j: usize = i;
    let mut acc: u64 = 0;
    proof {
        lemma_digit_run_bound(t@, i as int);
    }
    while j < t.len() && '0' <= t[j] && t[j] <= '9'
        invariant
            i <= j <= t@.len(),
            forall|k: int| i <= k < j ==> is_digit(#[trigger] t@[k]),
            digit_run(t@, i as int) == (j - i) + digit_run(t@, j as int),
            acc == saturate_u32(digits_value(t@, i as int, j - i)),
        decreases t@.len() - j,
    {
        let d = (t[j] as u32 - '0' as u32) as u64;
        proof {
            lemma_digits_value_monotone(t@, i as int, j - i + 1);
        }
        if acc < u32::MAX as u64 {
            let next = acc * 10 + d;
            acc = if next > u32::MAX as u64 {
                u32::MAX as u64
            } else {
                next
            };
        }
        j = j + 1;
    }
    (j - i, acc as u32)
}

/// The version components of `t` from `start` on, as `components_from` states.
fn read_components(t: &Vec<char>, start: usize) -> (r: Vec<u32>)
    requires
        start <= t@.len(),
    ensures
        r@ == components_from(t@, start as int),
{
    let mut out: Vec<u32> = Vec::new();
    let mut i: usize = start;
    loop
        invariant
            start <= i <= t@.len(),
            out@ + components_from(t@, i as int) == components_from(t@, start as int),
        decreases t@.len() - i,
    {
        let (n, v) = read_digits(t, i);
        if n == 0 {
            assert(out@ + components_from(t@, i as int) =~= out@);
            return out;
        }
        let len = t.len();
        assert(i + n <= len);
        let mut d: usize = i + n;
        proof {
            lemma_next_dot_after(t@, (i + n) as int);
        }
        while d < t.len() && t[d] != '.'
            invariant
                i + n <= d <= t@.len(),
                next_dot(t@, (i + n) as int) == next_dot(t@, d as int),
            decreases t@.len() - d,
        {
            d = d + 1;
        }
        out.push(v);
        if d >= t.len() {
            assert(components_from(t@, i as int) == seq![v]);
            return out;
        }
        assert(components_from(t@, i as int) == seq![v] + components_from(t@, d + 1));
        assert(out@ + components_from(t@, (d + 1) as int) =~= out@.drop_last() + (seq![v]
            + components_from(t@, d + 1)));
        i = d + 1;
    }
}

fn has_prefix(t: &Vec<char>, p: &Vec<char>) -> (r: bool)
    ensures
        r == (t@.len() >= p@.len() && t@.take(p@.len() as int) == p@),
{
    if t.len() < p.len() {
        return false;
    }
    let mut i: usize = 0;
    while i < p.len()
        invariant
            i <= p@.len() <= t@.len(),
            forall|k: int| 0 <= k < i ==> t@[k] == p@[k],
        decreases p@.len() - i,
    {
        if t[i] != p[i] {
            assert(t@.take(p@.len() as int)[i as int] != p@[i as int]);
            return false;
        }
        i = i + 1;
    }
    assert(t@.take(p@.len() as int) =~= p@);
    true
}

/// Extracts the version components that a `libclang` shared library file
/// name carries (`libclang-3.5.0.so` gives `[3, 5, 0]`, `libclang.so.1` gives
/// `[1]`, `libclang.so` gives `[]`).
pub fn parse_filename_version(filename: &str) -> (r: Vec<u32>)
    ensures
        r@ == filename_version(filename@),
{
    let t = chars_of(filename);
    let suffixed = chars_of("libclang.so.");
    let versioned = chars_of("libclang-");
    proof {
        reveal_strlit("libclang.so.");
        reveal_strlit("libclang-");
        assert(suffixed@ =~= suffixed_prefix());
        assert(versioned@ =~= versioned_prefix());
    }
    if has_prefix(&t, &suffixed) {
        read_components(&t, 12)
    } else if has_prefix(&t, &versioned) {
        read_components(&t, 9)
    } else {
        Vec::new()
    }
}

} // verus!
