use vstd::prelude::*;
use crate::probe::{Arch, ImageFormat};
use crate::text::chars_of;

verus! {

/// The operating system the library is searched for.
#[derive(Clone, Copy, Debug, PartialEq, Eq, Structural)]
pub enum Os {
    Linux,
    FreeBsd,
    MacOs,
    Windows,
    Other,
}

/// The toolchain flavour on an operating system that has two.
#[derive(Clone, Copy, Debug, PartialEq, Eq, Structural)]
pub enum Toolchain {
    /// GNU-style (MinGW on Windows).
    Gnu,
    /// Vendor-style (MSVC on Windows).
    Msvc,
    Other,
}

/// Everything a search depends on: the host target and the out-of-band
/// inputs that bypass or precede the conventional directories.
#[derive(Clone, Debug)]
pub struct SearchConfig {
    pub os: Os,
    pub arch: Arch,
    /// Pointer width of the host in bits.
    pub pointer_width: u32,
    pub toolchain: Toolchain,
    /// A directory that, when given, is the only one searched.
    pub override_path: Option<String>,
    /// The installation prefix an external helper tool reported, if it ran.
    pub tool_prefix: Option<String>,
}

/// One directory (or directory glob) of the search plan, with the priority
/// that breaks ties between candidates of equal version: higher wins.
#[derive(Clone, Debug)]
pub struct SearchDirectory {
    pub path: String,
    /// Whether `path` is a glob pattern that expands to directories.
    pub is_pattern: bool,
    pub priority: u64,
}

pub open spec fn image_format_of(os: Os) -> Option<ImageFormat> {
    match os {
        Os::Windows => Some(ImageFormat::Pe),
        Os::Linux | Os::FreeBsd => Some(ImageFormat::Elf),
        _ => None,
    }
}

/// The header format that candidates are probed for on `os`; `None` where no
/// probe is made.
pub fn image_format(os: Os) -> (r: Option<ImageFormat>)
    ensures
        r == image_format_of(os),
{
    match os {
        Os::Windows => Some(ImageFormat::Pe),
        Os::Linux | Os::FreeBsd => Some(ImageFormat::Elf),
        _ => None,
    }
}

pub open spec fn separator_of(os: Os) -> char {
    if os == Os::Windows {
        '\\'
    } else {
        '/'
    }
}

pub open spec fn views(v: Seq<String>) -> Seq<Seq<char>> {
    v.map_values(|s: String| s@)
}

/// The file-name globs of the shared library on `os`. Versioned names with a
/// suffix after `.so` are only looked for when loading at run time.
pub open spec fn library_filenames_of(os: Os, runtime: bool) -> Seq<Seq<char>> {
    match os {
        Os::Linux => if runtime {
            seq!["libclang.so"@, "libclang-*.so"@, "libclang.so.*"@, "libclang-*.so.*"@]
        } else {
            seq!["libclang.so"@, "libclang-*.so"@]
        },
        Os::FreeBsd => seq!["libclang.so"@, "libclang.so.*"@],
        Os::MacOs => seq!["libclang.dylib"@],
        Os::Windows => seq!["clang.dll"@, "libclang.dll"@],
        Os::Other => seq!["libclang.so"@],
    }
}

fn push_str(v: &mut Vec<String>, s: &str)
    ensures
        views(final(v)@) == views(old(v)@).push(s@),
{
    let ghost before = v@;
    let t = String::from_str(s);
    v.push(t);
    assert(views(v@) =~= views(before).push(s@));
}

/// The file-name globs of the shared library on `os`.
pub fn library_filenames(os: Os, runtime: bool) -> (r: Vec<String>)
    ensures
        views(r@) == library_filenames_of(os, runtime),
{
    let mut v: Vec<String> = Vec::new();
    assert(views(v@) =~= seq![]);
    match os {
        Os::Linux => {
            push_str(&mut v, "libclang.so");
            push_str(&mut v, "libclang-*.so");
            if runtime {
                push_str(&mut v, "libclang.so.*");
                push_str(&mut v, "libclang-*.so.*");
            }
        },
        Os::FreeBsd => {
            push_str(&mut v, "libclang.so");
            push_str(&mut v, "libclang.so.*");
        },
        Os::MacOs => {
            push_str(&mut v, "libclang.dylib");
        },
        Os::Windows => {
            push_str(&mut v, "clang.dll");
            push_str(&mut v, "libclang.dll");
        },
        Os::Other => {
            push_str(&mut v, "libclang.so");
        },
    }
    assert(views(v@) =~= library_filenames_of(os, runtime));
    v
}

/// The conventional install directories of `os`, least preferred first:
/// a directory's index in this list is its tie-break priority. On Windows the
/// directories of the other toolchain flavour come first, so that they are
/// still searched but lose ties against the native ones.
pub open spec fn backup_directories_of(os: Os, toolchain: Toolchain) -> Seq<Seq<char>> {
    match os {
        Os::Linux | Os::FreeBsd => seq![
            "/usr/lib*"@,
            "/usr/lib*/*"@,
            "/usr/lib*/*/*"@,
            "/usr/local/lib*"@,
            "/usr/local/lib*/*"@,
            "/usr/local/lib*/*/*"@,
            "/usr/local/llvm*/lib"@,
        ],
        Os::MacOs => seq![
            "/usr/local/opt/llvm*/lib"@,
            "/Applications/Xcode.app/Contents/Developer/Toolchains/XcodeDefault.xctoolchain/usr/lib"@,
            "/Library/Developer/CommandLineTools/usr/lib"@,
            "/usr/local/opt/llvm*/lib/llvm*/lib"@,
        ],
        Os::Windows => if toolchain == Toolchain::Gnu {
            seq!["C:\\LLVM\\lib"@, "C:\\Program Files*\\LLVM\\lib"@, "C:\\MSYS*\\MinGW*\\lib"@]
        } else {
            seq!["C:\\MSYS*\\MinGW*\\lib"@, "C:\\LLVM\\lib"@, "C:\\Program Files*\\LLVM\\lib"@]
        },
        Os::Other => seq![],
    }
}

/// The conventional install directories of `os`, least preferred first.
pub fn backup_directories(os: Os, toolchain: Toolchain) -> (r: Vec<String>)
    ensures
        views(r@) == backup_directories_of(os, toolchain),
{
    let mut v: Vec<String> = Vec::new();
    assert(views(v@) =~= seq![]);
    match os {
        Os::Linux | Os::FreeBsd => {
            push_str(&mut v, "/usr/lib*");
            push_str(&mut v, "/usr/lib*/*");
            push_str(&mut v, "/usr/lib*/*/*");
            push_str(&mut v, "/usr/local/lib*");
            push_str(&mut v, "/usr/local/lib*/*");
            push_str(&mut v, "/usr/local/lib*/*/*");
            push_str(&mut v, "/usr/local/llvm*/lib");
        },
        Os::MacOs => {
            push_str(&mut v, "/usr/local/opt/llvm*/lib");
            push_str(
                &mut v,
                "/Applications/Xcode.app/Contents/Developer/Toolchains/XcodeDefault.xctoolchain/usr/lib",
            );
            push_str(&mut v, "/Library/Developer/CommandLineTools/usr/lib");
            push_str(&mut v, "/usr/local/opt/llvm*/lib/llvm*/lib");
        },
        Os::Windows => {
            if toolchain == Toolchain::Gnu {
                push_str(&mut v, "C:\\LLVM\\lib");
                push_str(&mut v, "C:\\Program Files*\\LLVM\\lib");
                push_str(&mut v, "C:\\MSYS*\\MinGW*\\lib");
            } else {
                push_str(&mut v, "C:\\MSYS*\\MinGW*\\lib");
                push_str(&mut v, "C:\\LLVM\\lib");
                push_str(&mut v, "C:\\Program Files*\\LLVM\\lib");
            }
        },
        Os::Other => {},
    }
    assert(views(v@) =~= backup_directories_of(os, toolchain));
    v
}

impl View for SearchDirectory {
    type V = (Seq<char>, bool, u64);

    open spec fn view(&self) -> (Seq<char>, bool, u64) {
        (self.path@, self.is_pattern, self.priority)
    }
}

pub open spec fn entry_views(v: Seq<SearchDirectory>) -> Seq<(Seq<char>, bool, u64)> {
    v.map_values(|d: SearchDirectory| d@)
}

pub open spec fn join_of(os: Os, dir: Seq<char>, name: Seq<char>) -> Seq<char> {
    dir + seq![separator_of(os)] + name
}

/// The directories that the helper tool's prefix points to, `bin` above
/// `lib`, both above every conventional directory.
pub open spec fn tool_entries_of(cfg: SearchConfig) -> Seq<(Seq<char>, bool, u64)> {
    let n = backup_directories_of(cfg.os, cfg.toolchain).len() as u64;
    match cfg.tool_prefix {
        None => seq![],
        Some(t) => seq![
            (join_of(cfg.os, t@, "bin"@), false, (n + 1) as u64),
            (join_of(cfg.os, t@, "lib"@), false, n),
        ],
    }
}

pub open spec fn backup_entries_of(cfg: SearchConfig) -> Seq<(Seq<char>, bool, u64)> {
    let b = backup_directories_of(cfg.os, cfg.toolchain);
    Seq::new(b.len(), |i: int| (b[i], true, i as u64))
}

/// The search plan: the override directory alone when one is given;
/// otherwise the helper tool's directories, then the conventional ones.
pub open spec fn search_plan_of(cfg: SearchConfig) -> Seq<(Seq<char>, bool, u64)> {
    match cfg.override_path {
        Some(p) => seq![(p@, false, 0u64)],
        None => tool_entries_of(cfg) + backup_entries_of(cfg),
    }
}

/// `dir`, the path separator of `os`, then `name`.
pub fn join_path(os: Os, dir: &str, name: &str) -> (r: String)
    ensures
        r@ == join_of(os, dir@, name@),
{
    let mut r = String::from_str(dir);
    if os == Os::Windows {
        r.append("\\");
        proof {
            reveal_strlit("\\");
        }
    } else {
        r.append("/");
        proof {
            reveal_strlit("/");
        }
    }
    r.append(name);
    r
}

/// The ordered list of directories to search, with their priorities.
pub fn search_plan(cfg: &SearchConfig) -> (r: Vec<SearchDirectory>)
    ensures
        entry_views(r@) == search_plan_of(*cfg),
{
    let mut r: Vec<SearchDirectory> = Vec::new();
    match &cfg.override_path {
        Some(p) => {
            r.push(SearchDirectory { path: p.clone(), is_pattern: false, priority: 0 });
            assert(entry_views(r@) =~= search_plan_of(*cfg));
            return r;
        },
        None => {},
    }
    let backup = backup_directories(cfg.os, cfg.toolchain);
    let n = backup.len() as u64;
    assert(n == backup_directories_of(cfg.os, cfg.toolchain).len());
    assert(n < 8);
    match &cfg.tool_prefix {
        Some(t) => {
            r.push(SearchDirectory { path: join_path(cfg.os, t.as_str(), "bin"), is_pattern: false, priority: n + 1 });
            r.push(SearchDirectory { path: join_path(cfg.os, t.as_str(), "lib"), is_pattern: false, priority: n });
        },
        None => {},
    }
    assert(entry_views(r@) =~= tool_entries_of(*cfg));
    let mut i: usize = 0;
    while i < backup.len()
        invariant
            i <= backup@.len(),
            n == backup@.len(),
            views(backup@) == backup_directories_of(cfg.os, cfg.toolchain),
            entry_views(r@) =~= tool_entries_of(*cfg) + backup_entries_of(*cfg).take(i as int),
        decreases backup@.len() - i,
    {
        let ghost before = r@;
        r.push(SearchDirectory { path: backup[i].clone(), is_pattern: true, priority: i as u64 });
        assert(backup_entries_of(*cfg).take(i + 1) =~= backup_entries_of(*cfg).take(i as int).push(
            backup_entries_of(*cfg)[i as int],
        ));
        assert(entry_views(r@) =~= entry_views(before).push(r@.last()@));
        assert(views(backup@)[i as int] == backup@[i as int]@);
        i = i + 1;
    }
    assert(backup_entries_of(*cfg).take(i as int) =~= backup_entries_of(*cfg));
    r
}

/// The first line of a tool's output, without its line ending; `None` when
/// the output is empty.
pub open spec fn first_line_of(s: Seq<char>) -> Option<Seq<char>> {
    if s.len() == 0 {
        None
    } else {
        let e = if exists|i: int| 0 <= i < s.len() && s[i] == '\n' {
            choose|i: int| 0 <= i < s.len() && s[i] == '\n' && forall|k: int| 0 <= k < i ==> s[k] != '\n'
        } else {
            s.len() as int
        };
        let l = s.take(e);
        if l.len() > 0 && l.last() == '\r' {
            Some(l.drop_last())
        } else {
            Some(l)
        }
    }
}

/// The first line of `output` (as a helper tool prints its prefix).
pub fn first_line(output: &str) -> (r: Option<String>)
    ensures
        match r {
            None => first_line_of(output@) is None,
            Some(l) => first_line_of(output@) == Some(l@),
        },
{
    let t = chars_of(output);
    if t.len() == 0 {
        return None;
    }
    let mut e: usize = 0;
    while e < t.len() && t[e] != '\n'
        invariant
            e <= t@.len(),
            forall|k: int| 0 <= k < e ==> t@[k] != '\n',
        decreases t@.len() - e,
    {
        e = e + 1;
    }
    proof {
        if e < t@.len() {
            let c = choose|i: int| 0 <= i < t@.len() && t@[i] == '\n' && forall|k: int| 0 <= k < i ==> t@[k] != '\n';
            assert(c == e) by {
                if c < e {
                    assert(t@[c] != '\n');
                } else if c > e {
                    assert(t@[e as int] == '\n');
                }
            }
        } else {
            assert(!exists|i: int| 0 <= i < t@.len() && t@[i] == '\n');
        }
    }
    let mut end = e;
    if e > 0 && t[e - 1] == '\r' {
        end = e - 1;
    }
    let l = output.substring_char(0, end);
    let r = String::from_str(l);
    assert(r@ =~= first_line_of(output@)->0);
    Some(r)
}

pub open spec fn is_separator(c: char) -> bool {
    c == '\\' || c == '/'
}

/// Whether the last component of the path `d` is the three letters `name`.
pub open spec fn ends_with_component(d: Seq<char>, name: Seq<char>) -> bool {
    &&& name.len() == 3
    &&& d.len() >= 3
    &&& d.skip(d.len() - 3) == name
    &&& (d.len() == 3 || is_separator(d[d.len() - 4]))
}

pub open spec fn sibling_of(os: Os, d: Seq<char>) -> Option<Seq<char>> {
    let lib = seq!['l', 'i', 'b'];
    let bin = seq!['b', 'i', 'n'];
    if os != Os::Windows {
        None
    } else if ends_with_component(d, lib) {
        Some(d.take(d.len() - 3) + bin)
    } else if ends_with_component(d, bin) {
        Some(d.take(d.len() - 3) + lib)
    } else {
        None
    }
}

/// On Windows, the `bin` directory beside a `lib` directory (where the
/// loadable library usually lies beside the link-time stub) and the `lib`
/// directory beside a `bin` one; `None` elsewhere.
pub fn sibling_directory(os: Os, dir: &str) -> (r: Option<String>)
    ensures
        match r {
            None => sibling_of(os, dir@) is None,
            Some(s) => sibling_of(os, dir@) == Some(s@),
        },
{
    if os != Os::Windows {
        return None;
    }
    let t = chars_of(dir);
    let n = t.len();
    if n < 3 || (n > 3 && t[n - 4] != '\\' && t[n - 4] != '/') {
        proof {
            if n >= 3 {
                assert(!is_separator(dir@[n - 4]));
            }
        }
        return None;
    }
    let is_lib = t[n - 3] == 'l' && t[n - 2] == 'i' && t[n - 1] == 'b';
    let is_bin = t[n - 3] == 'b' && t[n - 2] == 'i' && t[n - 1] == 'n';
    let ghost tail = dir@.skip(n - 3);
    assert(tail =~= seq![dir@[n - 3], dir@[n - 2], dir@[n - 1]]);
    let head = dir.substring_char(0, n - 3);
    let mut r = String::from_str(head);
    if is_lib {
        r.append("bin");
        proof {
            reveal_strlit("bin");
        }
        assert(r@ =~= dir@.take(n - 3) + seq!['b', 'i', 'n']);
        Some(r)
    } else if is_bin {
        r.append("lib");
        proof {
            reveal_strlit("lib");
        }
        assert(r@ =~= dir@.take(n - 3) + seq!['l', 'i', 'b']);
        Some(r)
    } else {
        assert(tail != seq!['l', 'i', 'b']);
        assert(tail != seq!['b', 'i', 'n']);
        None
    }
}

/// `s` with each glob metacharacter (`?`, `*`, `[`, `]`) wrapped in brackets,
/// so that as a pattern it matches `s` literally.
pub open spec fn glob_escaped(s: Seq<char>) -> Seq<char>
    decreases s.len(),
{
    if s.len() == 0 {
        seq![]
    } else {
        let c = s[0];
        let head = if c == '?' || c == '*' || c == '[' || c == ']' {
            seq!['[', c, ']']
        } else {
            seq![c]
        };
        head + glob_escaped(s.drop_first())
    }
}

/// Relies on `glob::Pattern::escape`, which brackets each of `?`, `*`, `[`
/// and `]` and copies every other character.
#[verifier::external_body]
fn escape_pattern(s: &str) -> (r: String)
    ensures
        r@ == glob_escaped(s@),
{
    glob::Pattern::escape(s)
}

pub open spec fn file_patterns_of(os: Os, dir: Seq<char>, filenames: Seq<Seq<char>>) -> Seq<
    Seq<char>,
> {
    filenames.map_values(|f: Seq<char>| join_of(os, glob_escaped(dir), f))
}

/// The file globs to match in the directory `dir`: the directory, escaped,
/// joined to each file-name glob.
pub fn file_patterns(os: Os, dir: &str, filenames: &Vec<String>) -> (r: Vec<String>)
    ensures
        views(r@) == file_patterns_of(os, dir@, views(filenames@)),
{
    let escaped = escape_pattern(dir);
    let mut r: Vec<String> = Vec::new();
    let mut i: usize = 0;
    while i < filenames.len()
        invariant
            i <= filenames@.len(),
            escaped@ == glob_escaped(dir@),
            views(r@) =~= file_patterns_of(os, dir@, views(filenames@)).take(i as int),
        decreases filenames@.len() - i,
    {
        let ghost before = r@;
        let p = join_path(os, escaped.as_str(), filenames[i].as_str());
        r.push(p);
        assert(views(r@) =~= views(before).push(p@));
        i = i + 1;
    }
    assert(file_patterns_of(os, dir@, views(filenames@)).take(i as int) =~= file_patterns_of(
        os,
        dir@,
        views(filenames@),
    ));
    r
}

} // verus!
