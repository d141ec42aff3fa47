use vstd::prelude::*;
use crate::text::{chars_of, index_of, find_from, occurs_at, string_views, words, words_from};
use crate::version::{digit_run, digits_value, next_dot, read_digits};

verus! {

broadcast use vstd::string::group_string_axioms;

/// A version of Clang, as its `--version` output gives it.
#[allow(non_snake_case)]
#[derive(Clone, Copy, Debug, PartialEq, Eq, Structural)]
pub struct CXVersion {
    pub Major: i32,
    pub Minor: i32,
    pub Subminor: i32,
}

/// A `clang` executable.
#[derive(Clone, Debug)]
pub struct Clang {
    /// The path to this `clang` executable.
    pub path: String,
    /// The version of this `clang` executable if it could be parsed.
    pub version: Option<CXVersion>,
    /// The directories searched by this `clang` executable for C headers.
    pub c_search_paths: Vec<String>,
    /// The directories searched by this `clang` executable for C++ headers.
    pub cpp_search_paths: Vec<String>,
}

/// The number that the leading digits of `t` from `i` spell, when there are
/// any and it fits an `i32`.
pub open spec fn version_number(t: Seq<char>, i: int) -> Option<i32> {
    let n = digit_run(t, i);
    if n == 0 || digits_value(t, i, n as int) > i32::MAX {
        None
    } else {
        Some(digits_value(t, i, n as int) as i32)
    }
}

/// Parses a version number if possible, ignoring trailing non-digit characters.
pub fn parse_version_number(number: &str) -> (r: Option<i32>)
    ensures
        r == version_number(number@, 0),
{
    let t = chars_of(number);
    let (n, v) = read_digits(&t, 0);
    if n == 0 || v > i32::MAX as u32 {
        None
    } else {
        Some(v as i32)
    }
}

pub open spec fn version_marker() -> Seq<char> {
    seq!['v', 'e', 'r', 's', 'i', 'o', 'n', ' ']
}

/// The version in `clang --version` output: the first word after the first
/// `version `, read as `major.minor[.subminor]`; a missing or unreadable
/// subminor counts as 0.
pub open spec fn version_of_output(s: Seq<char>) -> Option<CXVersion> {
    let p = find_from(s, version_marker(), 0);
    let ws = words_from(s, p + 8);
    if p < 0 || ws.len() == 0 {
        None
    } else {
        let w = ws[0];
        let d0 = next_dot(w, 0);
        let d1 = next_dot(w, d0 + 1);
        match version_number(w, 0) {
            None => None,
            Some(major) => if d0 >= w.len() {
                None
            } else {
                match version_number(w, d0 + 1) {
                    None => None,
                    Some(minor) => {
                        let subminor = if d1 < w.len() {
                            match version_number(w, d1 + 1) {
                                Some(x) => x,
                                None => 0,
                            }
                        } else {
                            0
                        };
                        Some(CXVersion { Major: major, Minor: minor, Subminor: subminor })
                    },
                }
            },
        }
    }
}

fn number_at(t: &Vec<char>, i: usize) -> (r: Option<i32>)
    requires
        i <= t@.len(),
    ensures
        r == version_number(t@, i as int),
{
    let (n, v) = read_digits(t, i);
    if n == 0 || v > i32::MAX as u32 {
        None
    } else {
        Some(v as i32)
    }
}

fn dot_from(t: &Vec<char>, j: usize) -> (r: usize)
    requires
        j <= t@.len(),
    ensures
        r as int == next_dot(t@, j as int),
        j <= r <= t@.len(),
{
    let mut d = j;
    while d < t.len() && t[d] != '.'
        invariant
            j <= d <= t@.len(),
            next_dot(t@, j as int) == next_dot(t@, d as int),
        decreases t@.len() - d,
    {
        d = d + 1;
    }
    d
}

/// Parses the version from the output of `clang --version`, if possible.
pub fn parse_version(output: &str) -> (r: Option<CXVersion>)
    ensures
        r == version_of_output(output@),
{
    let s = chars_of(output);
    let marker = chars_of("version ");
    proof {
        reveal_strlit("version ");
        assert(marker@ =~= version_marker());
    }
    let p = match index_of(&s, &marker) {
        Some(p) => p,
        None => return None,
    };
    assert(occurs_at(s@, marker@, p as int)) by {
        crate::text::lemma_find_from_occurs(s@, marker@, 0);
    }
    let n = s.len();
    assert(p + 8 <= n);
    let ws = words(&s, p + 8);
    if ws.len() == 0 {
        return None;
    }
    let w = chars_of(ws[0].as_str());
    assert(w@ == string_views(ws@)[0]);
    let major = match number_at(&w, 0) {
        Some(x) => x,
        None => return None,
    };
    let d0 = dot_from(&w, 0);
    if d0 >= w.len() {
        return None;
    }
    let minor = match number_at(&w, d0 + 1) {
        Some(x) => x,
        None => return None,
    };
    let d1 = dot_from(&w, d0 + 1);
    let subminor = if d1 < w.len() {
        match number_at(&w, d1 + 1) {
            Some(x) => x,
            None => 0,
        }
    } else {
        0
    };
    Some(CXVersion { Major: major, Minor: minor, Subminor: subminor })
}

pub open spec fn list_start_marker() -> Seq<char> {
    "#include <...> search starts here:"@
}

pub open spec fn end_marker() -> Seq<char> {
    "End of search list."@
}

pub open spec fn framework_marker() -> Seq<char> {
    "(framework directory)"@
}

/// Where the list of search directories lies in the output of `clang -v`:
/// after the first list-start marker, up to the first end marker; `None` when
/// either is missing or the end comes first.
pub open spec fn search_list_bounds(s: Seq<char>) -> Option<(int, int)> {
    let a = find_from(s, list_start_marker(), 0);
    let b = find_from(s, end_marker(), 0);
    if a < 0 || b < 0 || a + list_start_marker().len() > b {
        None
    } else {
        Some((a + list_start_marker().len(), b))
    }
}

/// `t` from `i` on with every occurrence of `p` (found left to right)
/// taken out.
pub open spec fn without_from(t: Seq<char>, p: Seq<char>, i: int) -> Seq<char>
    decreases t.len() - i,
{
    if i < 0 || i >= t.len() {
        seq![]
    } else if p.len() > 0 && occurs_at(t, p, i) {
        without_from(t, p, i + p.len())
    } else {
        seq![t[i]] + without_from(t, p, i + 1)
    }
}

/// The search directories listed in the output of `clang -v`: the words of
/// the list, with the `(framework directory)` annotations taken out.
pub open spec fn search_paths_of(s: Seq<char>) -> Seq<Seq<char>> {
    let (a, b) = search_list_bounds(s)->0;
    words_from(without_from(s.subrange(a, b), framework_marker(), 0), 0)
}

fn marker_bounds(s: &Vec<char>) -> (r: Option<(usize, usize)>)
    ensures
        match r {
            None => search_list_bounds(s@) is None,
            Some((a, b)) => search_list_bounds(s@) == Some((a as int, b as int)) && a <= b
                <= s@.len(),
        },
{
    let list_start = chars_of("#include <...> search starts here:");
    let end = chars_of("End of search list.");
    let a = match index_of(s, &list_start) {
        Some(a) => a,
        None => return None,
    };
    let b = match index_of(s, &end) {
        Some(b) => b,
        None => return None,
    };
    proof {
        crate::text::lemma_find_from_occurs(s@, list_start@, 0);
        crate::text::lemma_find_from_occurs(s@, end@, 0);
    }
    let n = s.len();
    assert(a + list_start@.len() <= n);
    if a + list_start.len() > b {
        return None;
    }
    Some((a + list_start.len(), b))
}

/// Whether the output of `clang -v` holds a list of search directories.
pub fn has_search_list(output: &str) -> (r: bool)
    ensures
        r == search_list_bounds(output@) is Some,
{
    let s = chars_of(output);
    marker_bounds(&s).is_some()
}

fn remove_all(t: &Vec<char>, p: &Vec<char>) -> (r: Vec<char>)
    requires
        p@.len() > 0,
    ensures
        r@ == without_from(t@, p@, 0),
{
    let mut out: Vec<char> = Vec::new();
    let mut i: usize = 0;
    while i < t.len()
        invariant
            i <= t@.len(),
            p@.len() > 0,
            out@ + without_from(t@, p@, i as int) == without_from(t@, p@, 0),
        decreases t@.len() - i,
    {
        if crate::text::occurs(t, p, i) {
            let n = t.len();
            assert(i + p@.len() <= n);
            assert(without_from(t@, p@, (i + p@.len()) as int) =~= without_from(t@, p@, i as int));
            i = i + p.len();
        } else {
            let ghost before = out@;
            out.push(t[i]);
            assert(out@ + without_from(t@, p@, i + 1) =~= before + (seq![t@[i as int]] + without_from(t@, p@, i + 1)));
            i = i + 1;
        }
    }
    assert(out@ + without_from(t@, p@, i as int) =~= out@);
    out
}

/// Parses the search directories from the output of `clang -E -v`.
pub fn parse_search_paths(output: &str) -> (r: Vec<String>)
    requires
        search_list_bounds(output@) is Some,
    ensures
        string_views(r@) == search_paths_of(output@),
{
    let s = chars_of(output);
    let (a, b) = match marker_bounds(&s) {
        Some(bounds) => bounds,
        None => return Vec::new(),
    };
    let mut segment: Vec<char> = Vec::new();
    let mut i: usize = a;
    while i < b
        invariant
            a <= i <= b <= s@.len(),
            segment@ == s@.subrange(a as int, i as int),
        decreases b - i,
    {
        segment.push(s[i]);
        assert(s@.subrange(a as int, i + 1) =~= s@.subrange(a as int, i as int).push(s@[i as int]));
        i = i + 1;
    }
    let framework = chars_of("(framework directory)");
    proof {
        reveal_strlit("(framework directory)");
    }
    let cleaned = remove_all(&segment, &framework);
    words(&cleaned, 0)
}

impl Clang {
    /// Describes the `clang` executable at `path` from what it printed: the
    /// output of `--version`, and that of `-E -v` for C and for C++.
    pub fn new(path: String, version_output: &str, c_output: &str, cpp_output: &str) -> (r: Clang)
        requires
            search_list_bounds(c_output@) is Some,
            search_list_bounds(cpp_output@) is Some,
        ensures
            r.path@ == path@,
            r.version == version_of_output(version_output@),
            string_views(r.c_search_paths@) == search_paths_of(c_output@),
            string_views(r.cpp_search_paths@) == search_paths_of(cpp_output@),
    {
        let version = parse_version(version_output);
        let c_search_paths = parse_search_paths(c_output);
        let cpp_search_paths = parse_search_paths(cpp_output);
        Clang { path, version, c_search_paths, cpp_search_paths }
    }
}

} // verus!
