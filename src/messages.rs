use vstd::prelude::*;
use crate::probe::{Arch, RejectReason};
use crate::registry::{CallError, UnloadError, Version};
use crate::search::{Os, join_of, join_path, views};
use crate::select::{FindError, Rejection, RejectionModel};

verus! {

/// `items` with `sep` between each two.
pub open spec fn joined(items: Seq<Seq<char>>, sep: Seq<char>) -> Seq<char>
    decreases items.len(),
{
    if items.len() == 0 {
        seq![]
    } else if items.len() == 1 {
        items[0]
    } else {
        joined(items.drop_last(), sep) + sep + items.last()
    }
}

pub open spec fn arch_name(a: Arch) -> Seq<char> {
    match a {
        Arch::X86 => "x86"@,
        Arch::X86_64 => "x86-64"@,
        Arch::Aarch64 => "ARM64"@,
        Arch::Unknown | Arch::Other(_) => "unknown architecture"@,
    }
}

pub open spec fn reason_text(r: RejectReason) -> Seq<char> {
    match r {
        RejectReason::WrongArchitecture(a) => "invalid DLL ("@ + arch_name(a) + ")"@,
        RejectReason::WrongPointerWidth(w) => if w == 32 {
            "invalid pointer width (32-bit)"@
        } else {
            "invalid pointer width (64-bit)"@
        },
        RejectReason::InvalidHeader => "invalid header"@,
        RejectReason::Unreadable => "unreadable file"@,
    }
}

/// The name of an architecture as messages give it.
pub fn arch_text(a: Arch) -> (r: String)
    ensures
        r@ == arch_name(a),
{
    match a {
        Arch::X86 => String::from_str("x86"),
        Arch::X86_64 => String::from_str("x86-64"),
        Arch::Aarch64 => String::from_str("ARM64"),
        Arch::Unknown | Arch::Other(_) => String::from_str("unknown architecture"),
    }
}

/// Why a candidate was turned down, in words.
pub fn reason_message(r: RejectReason) -> (s: String)
    ensures
        s@ == reason_text(r),
{
    match r {
        RejectReason::WrongArchitecture(a) => {
            let mut s = String::from_str("invalid DLL (");
            let name = arch_text(a);
            s.append(name.as_str());
            s.append(")");
            s
        },
        RejectReason::WrongPointerWidth(w) => {
            if w == 32 {
                String::from_str("invalid pointer width (32-bit)")
            } else {
                String::from_str("invalid pointer width (64-bit)")
            }
        },
        RejectReason::InvalidHeader => String::from_str("invalid header"),
        RejectReason::Unreadable => String::from_str("unreadable file"),
    }
}

pub open spec fn rejection_text(os: Os, r: RejectionModel) -> Seq<char> {
    "("@ + join_of(os, r.0.0, r.0.1) + ": "@ + reason_text(r.1) + ")"@
}

/// A rejected candidate, its path and why, in words.
pub fn rejection_message(os: Os, r: &Rejection) -> (s: String)
    ensures
        s@ == rejection_text(os, r@),
{
    let mut s = String::from_str("(");
    let path = join_path(os, r.candidate.directory.as_str(), r.candidate.filename.as_str());
    s.append(path.as_str());
    s.append(": ");
    let reason = reason_message(r.reason);
    s.append(reason.as_str());
    s.append(")");
    s
}

pub open spec fn quoted(s: Seq<char>) -> Seq<char> {
    "'"@ + s + "'"@
}

/// The file-name globs, quoted and separated by commas.
pub open spec fn filenames_text(filenames: Seq<Seq<char>>) -> Seq<char> {
    joined(filenames.map_values(|f: Seq<char>| quoted(f)), ", "@)
}

fn filenames_message(filenames: &Vec<String>) -> (s: String)
    ensures
        s@ == filenames_text(views(filenames@)),
{
    let ghost items = views(filenames@).map_values(|f: Seq<char>| quoted(f));
    let mut s = String::new();
    let mut i: usize = 0;
    while i < filenames.len()
        invariant
            i <= filenames@.len(),
            items == views(filenames@).map_values(|f: Seq<char>| quoted(f)),
            s@ == joined(items.take(i as int), ", "@),
        decreases filenames@.len() - i,
    {
        if i > 0 {
            s.append(", ");
        }
        s.append("'");
        s.append(filenames[i].as_str());
        s.append("'");
        proof {
            let t = items.take(i + 1);
            assert(t.drop_last() =~= items.take(i as int));
            assert(t.last() == items[i as int]);
            if i == 0 {
                assert(s@ =~= t[0]);
            } else {
                assert(s@ =~= joined(t.drop_last(), ", "@) + ", "@ + t.last());
            }
        }
        i = i + 1;
    }
    assert(items.take(i as int) =~= items);
    s
}

pub open spec fn rejections_text(os: Os, rs: Seq<RejectionModel>) -> Seq<
    char,
> {
    joined(rs.map_values(|r: RejectionModel| rejection_text(os, r)), ", "@)
}

fn rejections_message(os: Os, rs: &Vec<Rejection>) -> (s: String)
    ensures
        s@ == rejections_text(os, crate::select::rejection_views(rs@)),
{
    let ghost items = crate::select::rejection_views(rs@).map_values(
        |r: RejectionModel| rejection_text(os, r),
    );
    let mut s = String::new();
    let mut i: usize = 0;
    while i < rs.len()
        invariant
            i <= rs@.len(),
            items == crate::select::rejection_views(rs@).map_values(
                |r: RejectionModel| rejection_text(os, r),
            ),
            s@ == joined(items.take(i as int), ", "@),
        decreases rs@.len() - i,
    {
        if i > 0 {
            s.append(", ");
        }
        let m = rejection_message(os, &rs[i]);
        s.append(m.as_str());
        proof {
            let t = items.take(i + 1);
            assert(t.drop_last() =~= items.take(i as int));
            assert(t.last() == items[i as int]);
            if i == 0 {
                assert(s@ =~= t[0]);
            } else {
                assert(s@ =~= joined(t.drop_last(), ", "@) + ", "@ + t.last());
            }
        }
        i = i + 1;
    }
    assert(items.take(i as int) =~= items);
    s
}

pub open spec fn find_error_text(os: Os, e: FindError, filenames: Seq<Seq<char>>) -> Seq<char> {
    match e {
        FindError::NotFound => "couldn't find any shared libraries matching: ["@ + filenames_text(
            filenames,
        ) + "], set the `LIBCLANG_PATH` environment variable to a path where one of these files can be found"@,
        FindError::NotFoundAtOverride(p) => "couldn't find any shared libraries matching: ["@
            + filenames_text(filenames) + "] in "@ + p@
            + ", the directory that the `LIBCLANG_PATH` environment variable names"@,
        FindError::InvalidCandidate(rs) => "couldn't find any valid shared libraries matching: ["@
            + filenames_text(filenames)
            + "], set the `LIBCLANG_PATH` environment variable to a path where one of these files can be found (invalid: ["@
            + rejections_text(os, crate::select::rejection_views(rs@)) + "])"@,
    }
}

impl FindError {
    /// This error in words, for a search on `os` for the file-name globs
    /// `filenames`; every rejected candidate is listed with its reason.
    pub fn message(&self, os: Os, filenames: &Vec<String>) -> (s: String)
        ensures
            s@ == find_error_text(os, *self, views(filenames@)),
    {
        let names = filenames_message(filenames);
        match self {
            FindError::NotFound => {
                let mut s = String::from_str("couldn't find any shared libraries matching: [");
                s.append(names.as_str());
                s.append(
                    "], set the `LIBCLANG_PATH` environment variable to a path where one of these files can be found",
                );
                s
            },
            FindError::NotFoundAtOverride(p) => {
                let mut s = String::from_str("couldn't find any shared libraries matching: [");
                s.append(names.as_str());
                s.append("] in ");
                s.append(p.as_str());
                s.append(", the directory that the `LIBCLANG_PATH` environment variable names");
                s
            },
            FindError::InvalidCandidate(rs) => {
                let mut s = String::from_str(
                    "couldn't find any valid shared libraries matching: [",
                );
                s.append(names.as_str());
                s.append(
                    "], set the `LIBCLANG_PATH` environment variable to a path where one of these files can be found (invalid: [",
                );
                let list = rejections_message(os, rs);
                s.append(list.as_str());
                s.append("])");
                s
            },
        }
    }
}

impl UnloadError {
    /// This error in words.
    pub fn message(&self) -> (s: String)
        ensures
            s@ == match *self {
                UnloadError::NotLoaded => "the `libclang` shared library is not in use in the current thread"@,
                UnloadError::StillReferenced => "the `libclang` shared library is still referenced by the current thread"@,
            },
    {
        match self {
            UnloadError::NotLoaded => String::from_str(
                "the `libclang` shared library is not in use in the current thread",
            ),
            UnloadError::StillReferenced => String::from_str(
                "the `libclang` shared library is still referenced by the current thread",
            ),
        }
    }
}

pub open spec fn version_text(v: Version) -> Seq<char> {
    match v {
        Version::V3_5 => "3.5"@,
        Version::V3_6 => "3.6"@,
        Version::V3_7 => "3.7"@,
        Version::V3_8 => "3.8"@,
        Version::V3_9 => "3.9"@,
        Version::V4_0 => "4.0"@,
        Version::V5_0 => "5.0"@,
        Version::V6_0 => "6.0"@,
        Version::V7_0 => "7.0"@,
        Version::V8_0 => "8.0"@,
        Version::V9_0 => "9.0"@,
    }
}

/// A release as messages give it (`3.9`).
pub fn version_message(v: Version) -> (s: String)
    ensures
        s@ == version_text(v),
{
    match v {
        Version::V3_5 => String::from_str("3.5"),
        Version::V3_6 => String::from_str("3.6"),
        Version::V3_7 => String::from_str("3.7"),
        Version::V3_8 => String::from_str("3.8"),
        Version::V3_9 => String::from_str("3.9"),
        Version::V4_0 => String::from_str("4.0"),
        Version::V5_0 => String::from_str("5.0"),
        Version::V6_0 => String::from_str("6.0"),
        Version::V7_0 => String::from_str("7.0"),
        Version::V8_0 => String::from_str("8.0"),
        Version::V9_0 => String::from_str("9.0"),
    }
}

impl CallError {
    /// This error in words: a missing library, or a missing function with
    /// the release the loaded library was found to be.
    pub fn message(&self) -> (s: String)
        ensures
            s@ == match *self {
                CallError::NotLoaded => "a `libclang` shared library is not loaded on this thread"@,
                CallError::Unresolved(n, v) => "`libclang` function not loaded: `"@ + n@
                    + "`; the loaded library is "@ + match v {
                    Some(v) => "release "@ + version_text(v) + " or later"@,
                    None => "older than release 3.5"@,
                },
            },
    {
        match self {
            CallError::NotLoaded => String::from_str(
                "a `libclang` shared library is not loaded on this thread",
            ),
            CallError::Unresolved(n, v) => {
                let mut s = String::from_str("`libclang` function not loaded: `");
                s.append(n.as_str());
                s.append("`; the loaded library is ");
                match v {
                    Some(v) => {
                        s.append("release ");
                        let t = version_message(*v);
                        s.append(t.as_str());
                        s.append(" or later");
                    },
                    None => {
                        s.append("older than release 3.5");
                    },
                }
                s
            },
        }
    }
}

} // verus!
