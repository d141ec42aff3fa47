use vstd::prelude::*;
use vstd::multiset::Multiset;
use crate::order::{lex_cmp, compare_keys, lemma_lex_cmp_total_order};
use crate::probe::{Arch, RejectReason, header_verdict, pe_info, validate_header};
use crate::search::Os;
use crate::search::{SearchConfig, image_format, image_format_of};
use crate::text::chars_of;
use crate::version::{parse_filename_version, filename_version};

verus! {

/// The model of a candidate: directory, file name, version, priority.
pub type CandidateModel = (Seq<char>, Seq<char>, Seq<u32>, u64);

/// The model of a probed candidate: the candidate and its leading bytes.
pub type ProbedModel = (CandidateModel, Option<Seq<u8>>);

/// The model of a rejection: the candidate and why it was turned down.
pub type RejectionModel = (CandidateModel, RejectReason);

/// A shared library file found by the search.
#[derive(Clone, Debug, PartialEq, Eq)]
pub struct Candidate {
    pub directory: String,
    pub filename: String,
    /// The version its file name carries; empty when it carries none.
    pub version: Vec<u32>,
    /// The tie-break priority of the directory it was found in.
    pub priority: u64,
}

/// A candidate with the leading bytes of its file, or `None` when the file
/// could not be read.
#[derive(Clone, Debug)]
pub struct Probed {
    pub candidate: Candidate,
    pub header: Option<Vec<u8>>,
}

/// A candidate that was turned down, and why.
#[derive(Clone, Debug, PartialEq, Eq)]
pub struct Rejection {
    pub candidate: Candidate,
    pub reason: RejectReason,
}

/// Why no library could be chosen.
#[derive(Clone, Debug, PartialEq, Eq)]
pub enum FindError {
    /// No file matched in any searched directory.
    NotFound,
    /// No file matched in the override directory, the only one searched.
    NotFoundAtOverride(String),
    /// Files matched, and every one failed validation; each is listed, in
    /// rank order (see `rejection_cmp`).
    InvalidCandidate(Vec<Rejection>),
}

impl View for Candidate {
    type V = CandidateModel;

    open spec fn view(&self) -> CandidateModel {
        (self.directory@, self.filename@, self.version@, self.priority)
    }
}

impl View for Probed {
    type V = ProbedModel;

    open spec fn view(&self) -> ProbedModel {
        (
            self.candidate@,
            match self.header {
                Some(h) => Some(h@),
                None => None,
            },
        )
    }
}

impl View for Rejection {
    type V = RejectionModel;

    open spec fn view(&self) -> RejectionModel {
        (self.candidate@, self.reason)
    }
}

pub open spec fn probed_views(s: Seq<Probed>) -> Seq<ProbedModel> {
    s.map_values(|p: Probed| p@)
}

pub open spec fn rejection_views(s: Seq<Rejection>) -> Seq<RejectionModel> {
    s.map_values(|r: Rejection| r@)
}

pub open spec fn codes(s: Seq<char>) -> Seq<u32> {
    s.map_values(|c: char| c as u32)
}

/// Three-way ranking of two candidates: the greater version wins; on equal
/// versions the higher directory priority wins; what remains tied is settled
/// by the path, the one that sorts first winning, so the order is total and
/// owes nothing to the order in which files were found.
pub open spec fn rank_cmp(
    a: CandidateModel,
    b: CandidateModel,
) -> int {
    let v = lex_cmp(a.2, b.2);
    if v != 0 {
        v
    } else if a.3 > b.3 {
        1
    } else if a.3 < b.3 {
        -1
    } else {
        let d = lex_cmp(codes(b.0), codes(a.0));
        if d != 0 {
            d
        } else {
            lex_cmp(codes(b.1), codes(a.1))
        }
    }
}

pub open spec fn outranks(
    a: CandidateModel,
    b: CandidateModel,
) -> bool {
    rank_cmp(a, b) > 0
}

/// What validation says of a probed candidate on the configured host.
pub open spec fn verdict_of(
    cfg: SearchConfig,
    p: ProbedModel,
) -> Result<(), RejectReason> {
    match image_format_of(cfg.os) {
        None => Ok(()),
        Some(f) => header_verdict(f, cfg.arch, cfg.pointer_width, p.1),
    }
}

pub open spec fn accepts(
    cfg: SearchConfig,
    p: ProbedModel,
) -> bool {
    verdict_of(cfg, p) is Ok
}

/// Candidate `i` of `s` passes validation and no other valid one outranks it.
pub open spec fn is_best(
    cfg: SearchConfig,
    s: Seq<ProbedModel>,
    i: int,
) -> bool {
    &&& 0 <= i < s.len()
    &&& accepts(cfg, s[i])
    &&& forall|j: int| 0 <= j < s.len() && accepts(cfg, #[trigger] s[j]) ==> !outranks(s[j].0, s[i].0)
}

/// The rejected candidates of `s`, in the order of `s`, with their reasons.
pub open spec fn rejected_in_scan_order(
    cfg: SearchConfig,
    s: Seq<ProbedModel>,
) -> Seq<RejectionModel>
    decreases s.len(),
{
    if s.len() == 0 {
        seq![]
    } else {
        let prev = rejected_in_scan_order(cfg, s.drop_last());
        let p = s.last();
        match verdict_of(cfg, p) {
            Ok(()) => prev,
            Err(r) => prev.push((p.0, r)),
        }
    }
}

pub open spec fn is_cpp_library(f: Seq<char>) -> bool {
    exists|i: int| 0 <= i && i + 5 <= f.len() && #[trigger] f.subrange(i, i + 5) == seq!['-', 'c', 'p', 'p', '.']
}

/// Makes a candidate of a file that matched a library file-name glob in
/// `directory`. A `libclang-cpp` library, which such globs also match, is no
/// candidate.
pub fn candidate_from_match(directory: String, filename: String, priority: u64) -> (r: Option<
    Candidate,
>)
    ensures
        r is None <==> is_cpp_library(filename@),
        r is Some ==> r->0@ == (directory@, filename@, filename_version(filename@), priority),
{
    let t = chars_of(filename.as_str());
    let mut i: usize = 0;
    while i < t.len() && t.len() - i >= 5
        invariant
            t@ == filename@,
            i <= t@.len(),
            forall|k: int| 0 <= k < i ==> #[trigger] t@.subrange(k, k + 5) != seq!['-', 'c', 'p', 'p', '.'],
        decreases t@.len() - i,
    {
        if t[i] == '-' && t[i + 1] == 'c' && t[i + 2] == 'p' && t[i + 3] == 'p' && t[i + 4] == '.' {
            assert(t@.subrange(i as int, i + 5) =~= seq!['-', 'c', 'p', 'p', '.']);
            return None;
        }
        assert(t@.subrange(i as int, i + 5)[0] == t@[i as int]);
        assert(t@.subrange(i as int, i + 5)[1] == t@[i + 1]);
        assert(t@.subrange(i as int, i + 5)[2] == t@[i + 2]);
        assert(t@.subrange(i as int, i + 5)[3] == t@[i + 3]);
        assert(t@.subrange(i as int, i + 5)[4] == t@[i + 4]);
        i = i + 1;
    }
    assert(!is_cpp_library(filename@)) by {
        if is_cpp_library(filename@) {
            let k = choose|k: int| 0 <= k && k + 5 <= filename@.len() && #[trigger] filename@.subrange(k, k + 5) == seq!['-', 'c', 'p', 'p', '.'];
            assert(k < i);
        }
    }
    let version = parse_filename_version(filename.as_str());
    Some(Candidate { directory, filename, version, priority })
}

proof fn lemma_codes_injective(a: Seq<char>, b: Seq<char>)
    ensures
        codes(a) == codes(b) ==> a == b,
{
    if codes(a) == codes(b) {
        assert(codes(a).len() == a.len());
        assert(codes(b).len() == b.len());
        assert forall|i: int| 0 <= i < a.len() implies a[i] == b[i] by {
            assert(codes(a)[i] == codes(b)[i]);
            vstd::utf8::char_u32_cast(a[i], a[i] as u32);
            vstd::utf8::char_u32_cast(b[i], b[i] as u32);
        }
        assert(a =~= b);
    }
}

/// `rank_cmp` is a strict total order on candidates: antisymmetric,
/// transitive, and zero only between equal candidates.
pub proof fn lemma_rank_total_order(
    a: CandidateModel,
    b: CandidateModel,
    c: CandidateModel,
)
    ensures
        rank_cmp(a, b) == -rank_cmp(b, a),
        rank_cmp(a, b) == 0 <==> a == b,
        rank_cmp(a, b) < 0 && rank_cmp(b, c) < 0 ==> rank_cmp(a, c) < 0,
{
    lemma_lex_cmp_total_order(a.2, b.2, c.2);
    lemma_lex_cmp_total_order(b.2, c.2, a.2);
    lemma_lex_cmp_total_order(a.2, c.2, b.2);
    lemma_lex_cmp_total_order(codes(b.0), codes(a.0), codes(c.0));
    lemma_lex_cmp_total_order(codes(c.0), codes(b.0), codes(a.0));
    lemma_lex_cmp_total_order(codes(c.0), codes(a.0), codes(b.0));
    lemma_lex_cmp_total_order(codes(b.1), codes(a.1), codes(c.1));
    lemma_lex_cmp_total_order(codes(c.1), codes(b.1), codes(a.1));
    lemma_lex_cmp_total_order(codes(c.1), codes(a.1), codes(b.1));
    lemma_codes_injective(a.0, b.0);
    lemma_codes_injective(a.1, b.1);
}

fn char_codes(s: &str) -> (r: Vec<u32>)
    ensures
        r@ == codes(s@),
{
    let t = chars_of(s);
    let mut r: Vec<u32> = Vec::new();
    let mut i: usize = 0;
    while i < t.len()
        invariant
            i <= t@.len(),
            t@ == s@,
            r@ =~= codes(s@).take(i as int),
        decreases t@.len() - i,
    {
        r.push(t[i] as u32);
        i = i + 1;
    }
    assert(codes(s@).take(i as int) =~= codes(s@));
    r
}

/// Compares two candidates by `rank_cmp`, returning `-1`, `0` or `1`.
pub fn rank_compare(a: &Candidate, b: &Candidate) -> (r: i8)
    ensures
        r as int == rank_cmp(a@, b@),
{
    let v = compare_keys(a.version.as_slice(), b.version.as_slice());
    if v != 0 {
        return v;
    }
    if a.priority > b.priority {
        return 1;
    }
    if a.priority < b.priority {
        return -1;
    }
    let ad = char_codes(a.directory.as_str());
    let bd = char_codes(b.directory.as_str());
    let d = compare_keys(bd.as_slice(), ad.as_slice());
    if d != 0 {
        return d;
    }
    let af = char_codes(a.filename.as_str());
    let bf = char_codes(b.filename.as_str());
    compare_keys(bf.as_slice(), af.as_slice())
}

/// A number for each architecture, distinct for distinct architectures.
pub open spec fn arch_index(a: Arch) -> int {
    match a {
        Arch::X86 => 0,
        Arch::X86_64 => 1,
        Arch::Aarch64 => 2,
        Arch::Unknown => 3,
        Arch::Other(code) => 4 + code,
    }
}

/// A number for each reason, distinct for distinct reasons.
pub open spec fn reason_index(r: RejectReason) -> int {
    match r {
        RejectReason::WrongArchitecture(a) => arch_index(a),
        RejectReason::WrongPointerWidth(w) => 0x20000 + w,
        RejectReason::InvalidHeader => -1,
        RejectReason::Unreadable => -2,
    }
}

/// The order in which rejections are reported: by the rank of the
/// candidate, the one that would have been preferred first; a candidate
/// rejected twice for different reasons is ordered by `reason_index`.
pub open spec fn rejection_cmp(a: RejectionModel, b: RejectionModel) -> int {
    let r = rank_cmp(a.0, b.0);
    if r != 0 {
        r
    } else if reason_index(a.1) > reason_index(b.1) {
        1
    } else if reason_index(a.1) < reason_index(b.1) {
        -1
    } else {
        0
    }
}

/// `rejection_cmp` is a total order: antisymmetric, transitive, and zero
/// only between equal rejections.
pub proof fn lemma_rejection_total_order(a: RejectionModel, b: RejectionModel, c: RejectionModel)
    ensures
        rejection_cmp(a, b) == -rejection_cmp(b, a),
        rejection_cmp(a, b) == 0 <==> a == b,
        rejection_cmp(a, b) < 0 && rejection_cmp(b, c) < 0 ==> rejection_cmp(a, c) < 0,
        rejection_cmp(a, b) > 0 && rejection_cmp(b, c) >= 0 ==> rejection_cmp(a, c) > 0,
{
    lemma_rank_total_order(a.0, b.0, c.0);
    lemma_rank_total_order(b.0, c.0, a.0);
    lemma_rank_total_order(a.0, c.0, b.0);
    lemma_rank_total_order(c.0, b.0, a.0);
    lemma_rank_total_order(b.0, a.0, c.0);
    lemma_rank_total_order(c.0, a.0, b.0);
}

/// Each rejection comes before the ones it outranks.
pub open spec fn sorted_by_rank(s: Seq<RejectionModel>) -> bool {
    forall|i: int, j: int| 0 <= i < j < s.len() ==> rejection_cmp(#[trigger] s[i], #[trigger] s[j]) >= 0
}

/// Two lists sorted by rank that hold the same rejections are equal.
pub proof fn lemma_sorted_rejections_unique(a: Seq<RejectionModel>, b: Seq<RejectionModel>)
    requires
        sorted_by_rank(a),
        sorted_by_rank(b),
        a.to_multiset() == b.to_multiset(),
    ensures
        a == b,
    decreases a.len(),
{
    broadcast use vstd::seq_lib::group_to_multiset_ensures;

    vstd::seq_lib::to_multiset_len(a);
    vstd::seq_lib::to_multiset_len(b);
    if a.len() == 0 {
        assert(b.len() == 0);
        assert(a =~= b);
    } else {
        assert(b.len() == a.len());
        assert(a.contains(a[0]));
        vstd::seq_lib::to_multiset_contains(a, a[0]);
        vstd::seq_lib::to_multiset_contains(b, a[0]);
        assert(b.contains(a[0]));
        let j = choose|j: int| 0 <= j < b.len() && b[j] == a[0];
        assert(b.contains(b[0]));
        vstd::seq_lib::to_multiset_contains(b, b[0]);
        vstd::seq_lib::to_multiset_contains(a, b[0]);
        assert(a.contains(b[0]));
        let k = choose|k: int| 0 <= k < a.len() && a[k] == b[0];
        lemma_rejection_total_order(a[0], b[0], a[0]);
        lemma_rejection_total_order(a[0], a[0], a[0]);
        lemma_rejection_total_order(b[0], b[0], b[0]);
        if j > 0 {
            assert(rejection_cmp(b[0], b[j]) >= 0);
        }
        if k > 0 {
            assert(rejection_cmp(a[0], a[k]) >= 0);
        }
        assert(a[0] == b[0]);
        assert(a.remove(0) =~= a.drop_first());
        assert(b.remove(0) =~= b.drop_first());
        assert(a.drop_first().to_multiset() == a.to_multiset().remove(a[0]));
        assert(b.drop_first().to_multiset() == b.to_multiset().remove(b[0]));
        assert(sorted_by_rank(a.drop_first())) by {
            assert forall|i: int, m: int| 0 <= i < m < a.drop_first().len() implies rejection_cmp(
                #[trigger] a.drop_first()[i],
                #[trigger] a.drop_first()[m],
            ) >= 0 by {
                assert(a.drop_first()[i] == a[i + 1]);
                assert(a.drop_first()[m] == a[m + 1]);
            }
        }
        assert(sorted_by_rank(b.drop_first())) by {
            assert forall|i: int, m: int| 0 <= i < m < b.drop_first().len() implies rejection_cmp(
                #[trigger] b.drop_first()[i],
                #[trigger] b.drop_first()[m],
            ) >= 0 by {
                assert(b.drop_first()[i] == b[i + 1]);
                assert(b.drop_first()[m] == b[m + 1]);
            }
        }
        lemma_sorted_rejections_unique(a.drop_first(), b.drop_first());
        assert forall|i: int| 0 <= i < a.len() implies a[i] == b[i] by {
            if i > 0 {
                assert(a[i] == a.drop_first()[i - 1]);
                assert(b[i] == b.drop_first()[i - 1]);
            }
        }
        assert(a =~= b);
    }
}

/// The rejections of `s` with the one of `p` (if `p` is rejected) added.
pub open spec fn with_rejection(
    cfg: SearchConfig,
    m: Multiset<RejectionModel>,
    p: ProbedModel,
) -> Multiset<RejectionModel> {
    match verdict_of(cfg, p) {
        Ok(()) => m,
        Err(r) => m.insert((p.0, r)),
    }
}

proof fn lemma_rejected_step(cfg: SearchConfig, s: Seq<ProbedModel>)
    requires
        s.len() > 0,
    ensures
        rejected_in_scan_order(cfg, s).to_multiset() == with_rejection(
            cfg,
            rejected_in_scan_order(cfg, s.drop_last()).to_multiset(),
            s.last(),
        ),
{
    broadcast use vstd::seq_lib::group_to_multiset_ensures;

}

proof fn lemma_rejected_remove(cfg: SearchConfig, t: Seq<ProbedModel>, k: int)
    requires
        0 <= k < t.len(),
    ensures
        rejected_in_scan_order(cfg, t).to_multiset() == with_rejection(
            cfg,
            rejected_in_scan_order(cfg, t.remove(k)).to_multiset(),
            t[k],
        ),
    decreases t.len(),
{
    broadcast use vstd::multiset::group_multiset_axioms;

    lemma_rejected_step(cfg, t);
    if k == t.len() - 1 {
        assert(t.remove(k) =~= t.drop_last());
    } else {
        let u = t.drop_last();
        assert(t.remove(k).drop_last() =~= u.remove(k));
        assert(t.remove(k).last() == t.last());
        lemma_rejected_remove(cfg, u, k);
        assert(u[k] == t[k]);
        lemma_rejected_step(cfg, t.remove(k));
        let m = rejected_in_scan_order(cfg, u.remove(k)).to_multiset();
        assert(with_rejection(cfg, with_rejection(cfg, m, t[k]), t.last()) =~= with_rejection(
            cfg,
            with_rejection(cfg, m, t.last()),
            t[k],
        ));
    }
}

/// The rejections found do not depend on the order of the scan: two scans
/// that found the same candidates reject the same ones, as often.
pub proof fn lemma_rejections_independent_of_order(
    cfg: SearchConfig,
    s: Seq<ProbedModel>,
    t: Seq<ProbedModel>,
)
    requires
        s.to_multiset() == t.to_multiset(),
    ensures
        rejected_in_scan_order(cfg, s).to_multiset() == rejected_in_scan_order(
            cfg,
            t,
        ).to_multiset(),
    decreases s.len(),
{
    broadcast use vstd::seq_lib::group_to_multiset_ensures;

    vstd::seq_lib::to_multiset_len(s);
    vstd::seq_lib::to_multiset_len(t);
    if s.len() == 0 {
        assert(t.len() == 0);
        assert(s =~= t);
    } else {
        let x = s.last();
        assert(s.contains(x));
        vstd::seq_lib::to_multiset_contains(s, x);
        vstd::seq_lib::to_multiset_contains(t, x);
        assert(t.to_multiset().count(x) > 0);
        assert(t.contains(x));
        let k = choose|k: int| 0 <= k < t.len() && t[k] == x;
        assert(s.remove(s.len() - 1) =~= s.drop_last());
        assert(s.drop_last().to_multiset() == s.to_multiset().remove(x));
        assert(t.remove(k).to_multiset() == t.to_multiset().remove(x));
        lemma_rejections_independent_of_order(cfg, s.drop_last(), t.remove(k));
        lemma_rejected_step(cfg, s);
        lemma_rejected_remove(cfg, t, k);
    }
}

fn reason_number(r: RejectReason) -> (n: i64)
    ensures
        n as int == reason_index(r),
{
    match r {
        RejectReason::WrongArchitecture(a) => match a {
            Arch::X86 => 0,
            Arch::X86_64 => 1,
            Arch::Aarch64 => 2,
            Arch::Unknown => 3,
            Arch::Other(code) => 4 + code as i64,
        },
        RejectReason::WrongPointerWidth(w) => 0x20000 + w as i64,
        RejectReason::InvalidHeader => -1,
        RejectReason::Unreadable => -2,
    }
}

/// Compares two rejections by `rejection_cmp`, returning `-1`, `0` or `1`.
pub fn rejection_compare(a: &Rejection, b: &Rejection) -> (r: i8)
    ensures
        r as int == rejection_cmp(a@, b@),
{
    let c = rank_compare(&a.candidate, &b.candidate);
    if c != 0 {
        return c;
    }
    let x = reason_number(a.reason);
    let y = reason_number(b.reason);
    if x > y {
        1
    } else if x < y {
        -1
    } else {
        0
    }
}

/// A copy of `c`.
fn copy_candidate(c: &Candidate) -> (r: Candidate)
    ensures
        r@ == c@,
{
    let mut version: Vec<u32> = Vec::new();
    let mut i: usize = 0;
    while i < c.version.len()
        invariant
            i <= c.version@.len(),
            version@ == c.version@.take(i as int),
        decreases c.version@.len() - i,
    {
        version.push(c.version[i]);
        assert(c.version@.take(i + 1) =~= c.version@.take(i as int).push(c.version@[i as int]));
        i = i + 1;
    }
    assert(c.version@.take(i as int) =~= c.version@);
    Candidate {
        directory: c.directory.clone(),
        filename: c.filename.clone(),
        version,
        priority: c.priority,
    }
}

/// Adds `x` to a list sorted by rank, keeping it sorted.
fn insert_by_rank(v: &mut Vec<Rejection>, x: Rejection)
    requires
        sorted_by_rank(rejection_views(old(v)@)),
    ensures
        sorted_by_rank(rejection_views(final(v)@)),
        rejection_views(final(v)@).to_multiset() == rejection_views(old(v)@).to_multiset().insert(
            x@,
        ),
{
    broadcast use vstd::seq_lib::group_to_multiset_ensures;

    let ghost old_views = rejection_views(v@);
    let mut k: usize = 0;
    while k < v.len() && rejection_compare(&x, &v[k]) <= 0
        invariant
            k <= v@.len(),
            old_views == rejection_views(v@),
            forall|j: int| 0 <= j < k ==> rejection_cmp(x@, #[trigger] old_views[j]) <= 0,
        decreases v@.len() - k,
    {
        assert(old_views[k as int] == v@[k as int]@);
        k = k + 1;
    }
    proof {
        if k < v@.len() {
            assert(old_views[k as int] == v@[k as int]@);
        }
    }
    let ghost xv = x@;
    v.insert(k, x);
    let ghost nv = rejection_views(v@);
    assert(nv =~= old_views.insert(k as int, xv));
    assert(sorted_by_rank(nv)) by {
        assert forall|i: int, j: int| 0 <= i < j < nv.len() implies rejection_cmp(
            #[trigger] nv[i],
            #[trigger] nv[j],
        ) >= 0 by {
            if j < k {
                assert(nv[i] == old_views[i] && nv[j] == old_views[j]);
            } else if j == k {
                assert(nv[i] == old_views[i]);
                lemma_rejection_total_order(xv, old_views[i], xv);
            } else if i < k {
                assert(nv[i] == old_views[i] && nv[j] == old_views[j - 1]);
            } else if i == k {
                assert(nv[j] == old_views[j - 1]);
                if j - 1 > k {
                    assert(rejection_cmp(old_views[k as int], old_views[j - 1]) >= 0);
                }
                lemma_rejection_total_order(xv, old_views[k as int], old_views[j - 1]);
                lemma_rejection_total_order(old_views[k as int], old_views[k as int], old_views[k as int]);
            } else {
                assert(nv[i] == old_views[i - 1] && nv[j] == old_views[j - 1]);
            }
        }
    }
}

/// The outcome of a search over the probed candidates `s`.
pub open spec fn selection_ok(
    cfg: SearchConfig,
    s: Seq<ProbedModel>,
    r: Result<(String, String), FindError>,
) -> bool {
    match r {
        Ok(chosen) => exists|i: int|
            is_best(cfg, s, i) && chosen.0@ == s[i].0.0 && chosen.1@ == s[i].0.1,
        Err(FindError::NotFound) => s.len() == 0 && cfg.override_path is None,
        Err(FindError::NotFoundAtOverride(p)) => {
            &&& s.len() == 0
            &&& cfg.override_path is Some
            &&& p@ == cfg.override_path->0@
        },
        Err(FindError::InvalidCandidate(rs)) => {
            &&& s.len() > 0
            &&& forall|i: int| 0 <= i < s.len() ==> !accepts(cfg, #[trigger] s[i])
            &&& sorted_by_rank(rejection_views(rs@))
            &&& rejection_views(rs@).to_multiset() == rejected_in_scan_order(cfg, s).to_multiset()
        },
    }
}

fn verdict(cfg: &SearchConfig, p: &Probed) -> (r: Result<(), RejectReason>)
    ensures
        r == verdict_of(*cfg, p@),
{
    match image_format(cfg.os) {
        None => Ok(()),
        Some(f) => {
            let header = match &p.header {
                Some(h) => Some(h.as_slice()),
                None => None,
            };
            validate_header(f, cfg.arch, cfg.pointer_width, header)
        },
    }
}

/// Chooses the library to load among the candidates that the search found:
/// of those that pass validation, the one that no other outranks (greatest
/// version, then highest directory priority). When none passes, every
/// rejected candidate is reported with its reason, in rank order.
pub fn find(cfg: &SearchConfig, found: &Vec<Probed>) -> (r: Result<(String, String), FindError>)
    ensures
        selection_ok(*cfg, probed_views(found@), r),
        r is Ok <==> exists|i: int|
            0 <= i < found@.len() && accepts(*cfg, #[trigger] probed_views(found@)[i]),
{
    let ghost s = probed_views(found@);
    let mut best: Option<usize> = None;
    let mut rejected: Vec<Rejection> = Vec::new();
    let mut i: usize = 0;
    proof {
        assert(rejected_in_scan_order(*cfg, s.take(0)) =~= seq![]);
        assert(rejection_views(rejected@) =~= seq![]);
        assert(rejection_views(rejected@) == rejected_in_scan_order(*cfg, s.take(0)));
    }
    while i < found.len()
        invariant
            i <= found@.len(),
            s == probed_views(found@),
            best is None ==> forall|j: int| 0 <= j < i ==> !accepts(*cfg, #[trigger] s[j]),
            best is Some ==> {
                let b = best->0 as int;
                &&& b < i
                &&& accepts(*cfg, s[b])
                &&& forall|j: int| 0 <= j < i && accepts(*cfg, #[trigger] s[j]) ==> !outranks(s[j].0, s[b].0)
            },
            sorted_by_rank(rejection_views(rejected@)),
            rejection_views(rejected@).to_multiset() == rejected_in_scan_order(
                *cfg,
                s.take(i as int),
            ).to_multiset(),
        decreases found@.len() - i,
    {
        let p = &found[i];
        assert(s[i as int] == p@);
        let ghost prefix = s.take(i as int);
        assert(s.take(i + 1).drop_last() =~= prefix);
        assert(s.take(i + 1).last() == s[i as int]);
        proof {
            lemma_rejected_step(*cfg, s.take(i + 1));
        }
        match verdict(cfg, p) {
            Ok(()) => {
                match best {
                    None => {
                        proof {
                            lemma_rank_total_order(s[i as int].0, s[i as int].0, s[i as int].0);
                        }
                        best = Some(i);
                    },
                    Some(b) => {
                        let c = rank_compare(&p.candidate, &found[b].candidate);
                        assert(s[b as int] == found@[b as int]@);
                        if c > 0 {
                            proof {
                                assert forall|j: int| 0 <= j < i + 1 && accepts(*cfg, #[trigger] s[j]) implies !outranks(s[j].0, s[i as int].0) by {
                                    lemma_rank_total_order(s[j].0, s[b as int].0, s[i as int].0);
                                    lemma_rank_total_order(s[b as int].0, s[i as int].0, s[j].0);
                                    lemma_rank_total_order(s[i as int].0, s[i as int].0, s[j].0);
                                }
                            }
                            best = Some(i);
                        }
                    },
                }
            },
            Err(reason) => {
                let c = copy_candidate(&p.candidate);
                insert_by_rank(&mut rejected, Rejection { candidate: c, reason });
            },
        }
        i = i + 1;
    }
    assert(s.take(i as int) =~= s);
    match best {
        Some(b) => {
            let d = found[b].candidate.directory.clone();
            let f = found[b].candidate.filename.clone();
            assert(is_best(*cfg, s, b as int));
            Ok((d, f))
        },
        None => {
            if found.len() > 0 {
                Err(FindError::InvalidCandidate(rejected))
            } else {
                match &cfg.override_path {
                    Some(p) => Err(FindError::NotFoundAtOverride(p.clone())),
                    None => Err(FindError::NotFound),
                }
            }
        },
    }
}

/// The chosen candidate carries the greatest version among the valid ones,
/// whatever directories they were found in.
pub proof fn lemma_chosen_has_greatest_version(
    cfg: SearchConfig,
    s: Seq<ProbedModel>,
    i: int,
    j: int,
)
    requires
        is_best(cfg, s, i),
        0 <= j < s.len(),
        accepts(cfg, s[j]),
    ensures
        lex_cmp(s[j].0.2, s[i].0.2) <= 0,
{
    assert(!outranks(s[j].0, s[i].0));
}

/// Version dominates directory priority: a valid candidate with a smaller
/// version than another valid one is never chosen, however high its
/// directory's priority.
pub proof fn lemma_version_dominates_priority(
    cfg: SearchConfig,
    s: Seq<ProbedModel>,
    j: int,
    k: int,
)
    requires
        0 <= j < s.len(),
        0 <= k < s.len(),
        accepts(cfg, s[j]),
        accepts(cfg, s[k]),
        lex_cmp(s[j].0.2, s[k].0.2) > 0,
    ensures
        !is_best(cfg, s, k),
{
    assert(outranks(s[j].0, s[k].0));
}

/// Among valid candidates of equal version, the chosen one comes from a
/// directory of the highest priority.
pub proof fn lemma_priority_breaks_version_ties(
    cfg: SearchConfig,
    s: Seq<ProbedModel>,
    i: int,
    j: int,
)
    requires
        is_best(cfg, s, i),
        0 <= j < s.len(),
        accepts(cfg, s[j]),
        s[j].0.2 == s[i].0.2,
    ensures
        s[j].0.3 <= s[i].0.3,
{
    lemma_lex_cmp_total_order(s[j].0.2, s[i].0.2, s[i].0.2);
    assert(!outranks(s[j].0, s[i].0));
}

/// What a search result says, as a value: the chosen directory and file,
/// or which error with its payload.
pub open spec fn outcome(r: Result<(String, String), FindError>) -> (
    int,
    Seq<char>,
    Seq<char>,
    Seq<RejectionModel>,
) {
    match r {
        Ok(chosen) => (0, chosen.0@, chosen.1@, seq![]),
        Err(FindError::NotFound) => (1, seq![], seq![], seq![]),
        Err(FindError::NotFoundAtOverride(p)) => (2, p@, seq![], seq![]),
        Err(FindError::InvalidCandidate(rs)) => (3, seq![], seq![], rejection_views(rs@)),
    }
}

/// The order in which directories and files were scanned does not matter:
/// two searches that found the same candidates, in any order, give the same
/// result: the same library, or the same error listing the same rejections
/// in the same order.
pub proof fn lemma_scan_order_irrelevant(
    cfg: SearchConfig,
    s: Seq<ProbedModel>,
    t: Seq<ProbedModel>,
    rs: Result<(String, String), FindError>,
    rt: Result<(String, String), FindError>,
)
    requires
        s.to_multiset() == t.to_multiset(),
        selection_ok(cfg, s, rs),
        selection_ok(cfg, t, rt),
    ensures
        outcome(rs) == outcome(rt),
{
    broadcast use vstd::seq_lib::group_to_multiset_ensures;

    vstd::seq_lib::to_multiset_len(s);
    vstd::seq_lib::to_multiset_len(t);
    assert(s.len() == t.len());
    assert forall|x| s.contains(x) <==> t.contains(x) by {
        vstd::seq_lib::to_multiset_contains(s, x);
        vstd::seq_lib::to_multiset_contains(t, x);
    }
    if rs is Ok {
        let i = choose|i: int|
            is_best(cfg, s, i) && rs->Ok_0.0@ == s[i].0.0 && rs->Ok_0.1@ == s[i].0.1;
        assert(s.contains(s[i]));
        assert(t.contains(s[i]));
        let a = choose|a: int| 0 <= a < t.len() && t[a] == s[i];
        if rt is Err {
            assert(!accepts(cfg, t[a]));
        } else {
            let k = choose|k: int|
                is_best(cfg, t, k) && rt->Ok_0.0@ == t[k].0.0 && rt->Ok_0.1@ == t[k].0.1;
            assert(t.contains(t[k]));
            assert(s.contains(t[k]));
            let b = choose|b: int| 0 <= b < s.len() && s[b] == t[k];
            assert(!outranks(t[a].0, t[k].0));
            assert(!outranks(s[b].0, s[i].0));
            lemma_rank_total_order(s[i].0, t[k].0, t[k].0);
        }
    } else if rt is Ok {
        let k = choose|k: int|
            is_best(cfg, t, k) && rt->Ok_0.0@ == t[k].0.0 && rt->Ok_0.1@ == t[k].0.1;
        assert(t.contains(t[k]));
        assert(s.contains(t[k]));
        let b = choose|b: int| 0 <= b < s.len() && s[b] == t[k];
        assert(!accepts(cfg, s[b]));
    } else {
        if rs->Err_0 is InvalidCandidate && rt->Err_0 is InvalidCandidate {
            lemma_rejections_independent_of_order(cfg, s, t);
            lemma_sorted_rejections_unique(
                rejection_views(rs->Err_0->InvalidCandidate_0@),
                rejection_views(rt->Err_0->InvalidCandidate_0@),
            );
        }
    }
}

/// Of two valid candidates, in either scan order, the one of greater
/// version is chosen, whatever the priorities of their directories.
pub proof fn lemma_two_candidates_greater_version_chosen(
    cfg: SearchConfig,
    s: Seq<ProbedModel>,
    r: Result<(String, String), FindError>,
    i: int,
)
    requires
        selection_ok(cfg, s, r),
        s.len() == 2,
        0 <= i < 2,
        accepts(cfg, s[0]),
        accepts(cfg, s[1]),
        lex_cmp(s[i].0.2, s[1 - i].0.2) > 0,
    ensures
        outcome(r) == (0int, s[i].0.0, s[i].0.1, Seq::<RejectionModel>::empty()),
{
    assert(r is Ok);
    let k = choose|k: int| is_best(cfg, s, k) && r->Ok_0.0@ == s[k].0.0 && r->Ok_0.1@ == s[k].0.1;
    if k != i {
        assert(outranks(s[i].0, s[k].0));
    }
}

/// Of two valid candidates of equal version, in either scan order, the one
/// whose directory has the higher priority is chosen.
pub proof fn lemma_two_candidates_higher_priority_chosen(
    cfg: SearchConfig,
    s: Seq<ProbedModel>,
    r: Result<(String, String), FindError>,
    i: int,
)
    requires
        selection_ok(cfg, s, r),
        s.len() == 2,
        0 <= i < 2,
        accepts(cfg, s[0]),
        accepts(cfg, s[1]),
        s[i].0.2 == s[1 - i].0.2,
        s[i].0.3 > s[1 - i].0.3,
    ensures
        outcome(r) == (0int, s[i].0.0, s[i].0.1, Seq::<RejectionModel>::empty()),
{
    assert(r is Ok);
    let k = choose|k: int| is_best(cfg, s, k) && r->Ok_0.0@ == s[k].0.0 && r->Ok_0.1@ == s[k].0.1;
    if k != i {
        lemma_lex_cmp_total_order(s[i].0.2, s[k].0.2, s[k].0.2);
        assert(outranks(s[i].0, s[k].0));
    }
}

/// On Windows a DLL built for another CPU architecture is rejected, and the
/// rejection names that architecture, even where its pointer width matches.
pub proof fn lemma_foreign_architecture_rejected(
    cfg: SearchConfig,
    p: ProbedModel,
)
    requires
        cfg.os == Os::Windows,
        p.1 is Some,
        pe_info(p.1->0) is Some,
        pe_info(p.1->0)->0.arch is Some,
        pe_info(p.1->0)->0.arch->0 != cfg.arch,
    ensures
        verdict_of(cfg, p) == Err::<(), RejectReason>(
            RejectReason::WrongArchitecture(pe_info(p.1->0)->0.arch->0),
        ),
        !accepts(cfg, p),
{
}

/// When the only file found is a DLL for another architecture, the search
/// fails with that one rejection, naming the architecture; nothing is chosen
/// however high its version.
pub proof fn lemma_only_foreign_candidate_fails(
    cfg: SearchConfig,
    s: Seq<ProbedModel>,
    r: Result<(String, String), FindError>,
    a: Arch,
)
    requires
        selection_ok(cfg, s, r),
        s.len() == 1,
        cfg.os == Os::Windows,
        s[0].1 is Some,
        pe_info(s[0].1->0) is Some,
        pe_info(s[0].1->0)->0.arch == Some(a),
        a != cfg.arch,
    ensures
        r is Err,
        r->Err_0 is InvalidCandidate,
        rejection_views(r->Err_0->InvalidCandidate_0@) == seq![
            (s[0].0, RejectReason::WrongArchitecture(a)),
        ],
{
    broadcast use vstd::seq_lib::group_to_multiset_ensures;

    lemma_foreign_architecture_rejected(cfg, s[0]);
    assert(s.drop_last() =~= seq![]);
    let expected = seq![(s[0].0, RejectReason::WrongArchitecture(a))];
    assert(rejected_in_scan_order(cfg, s.drop_last()) =~= seq![]);
    assert(rejected_in_scan_order(cfg, s) =~= expected);
    let got = rejection_views(r->Err_0->InvalidCandidate_0@);
    vstd::seq_lib::to_multiset_len(got);
    vstd::seq_lib::to_multiset_len(expected);
    assert(got.len() == 1);
    assert(expected.contains(expected[0]));
    vstd::seq_lib::to_multiset_contains(expected, expected[0]);
    vstd::seq_lib::to_multiset_contains(got, expected[0]);
    assert(got.to_multiset().count(expected[0]) > 0);
    assert(got.contains(expected[0]));
    assert(got =~= expected);
}

} // verus!
