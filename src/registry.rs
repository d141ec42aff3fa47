use vstd::prelude::*;
use crate::text::chars_of;

verus! {

/// A release of `libclang`, as far as the symbols it exports tell it apart.
#[derive(Clone, Copy, Debug, PartialEq, Eq, PartialOrd, Ord, Hash, Structural)]
pub enum Version {
    V3_5,
    V3_6,
    V3_7,
    V3_8,
    V3_9,
    V4_0,
    V5_0,
    V6_0,
    V7_0,
    V8_0,
    V9_0,
}

/// The number of releases that marker symbols tell apart.
pub const MARKER_COUNT: usize = 11;

/// The release with rank `k` counted from the newest (rank 0).
pub open spec fn release_at(k: int) -> Version {
    if k == 0 {
        Version::V9_0
    } else if k == 1 {
        Version::V8_0
    } else if k == 2 {
        Version::V7_0
    } else if k == 3 {
        Version::V6_0
    } else if k == 4 {
        Version::V5_0
    } else if k == 5 {
        Version::V4_0
    } else if k == 6 {
        Version::V3_9
    } else if k == 7 {
        Version::V3_8
    } else if k == 8 {
        Version::V3_7
    } else if k == 9 {
        Version::V3_6
    } else {
        Version::V3_5
    }
}

/// The symbol first exported by the release with rank `k`.
pub open spec fn marker_at(k: int) -> Seq<char> {
    if k == 0 {
        "clang_Cursor_isAnonymousRecordDecl"@
    } else if k == 1 {
        "clang_Cursor_getObjCPropertyGetterName"@
    } else if k == 2 {
        "clang_File_tryGetRealPathName"@
    } else if k == 3 {
        "clang_CXIndex_setInvocationEmissionPathOption"@
    } else if k == 4 {
        "clang_Cursor_isExternalSymbol"@
    } else if k == 5 {
        "clang_EvalResult_getAsLongLong"@
    } else if k == 6 {
        "clang_CXXConstructor_isConvertingConstructor"@
    } else if k == 7 {
        "clang_CXXField_isMutable"@
    } else if k == 8 {
        "clang_Cursor_getOffsetOfField"@
    } else if k == 9 {
        "clang_Cursor_getStorageClass"@
    } else {
        "clang_Type_getNumTemplateArguments"@
    }
}

/// The release with rank `k` counted from the newest.
pub fn release(k: usize) -> (r: Version)
    requires
        k < MARKER_COUNT,
    ensures
        r == release_at(k as int),
{
    if k == 0 {
        Version::V9_0
    } else if k == 1 {
        Version::V8_0
    } else if k == 2 {
        Version::V7_0
    } else if k == 3 {
        Version::V6_0
    } else if k == 4 {
        Version::V5_0
    } else if k == 5 {
        Version::V4_0
    } else if k == 6 {
        Version::V3_9
    } else if k == 7 {
        Version::V3_8
    } else if k == 8 {
        Version::V3_7
    } else if k == 9 {
        Version::V3_6
    } else {
        Version::V3_5
    }
}

/// The symbol first exported by the release with rank `k`, counted from the
/// newest: the library exports it only from that release on.
pub fn marker_symbol(k: usize) -> (r: &'static str)
    requires
        k < MARKER_COUNT,
    ensures
        r@ == marker_at(k as int),
{
    if k == 0 {
        "clang_Cursor_isAnonymousRecordDecl"
    } else if k == 1 {
        "clang_Cursor_getObjCPropertyGetterName"
    } else if k == 2 {
        "clang_File_tryGetRealPathName"
    } else if k == 3 {
        "clang_CXIndex_setInvocationEmissionPathOption"
    } else if k == 4 {
        "clang_Cursor_isExternalSymbol"
    } else if k == 5 {
        "clang_EvalResult_getAsLongLong"
    } else if k == 6 {
        "clang_CXXConstructor_isConvertingConstructor"
    } else if k == 7 {
        "clang_CXXField_isMutable"
    } else if k == 8 {
        "clang_Cursor_getOffsetOfField"
    } else if k == 9 {
        "clang_Cursor_getStorageClass"
    } else {
        "clang_Type_getNumTemplateArguments"
    }
}

/// One entry of the symbol table: a declared function and, when the loaded
/// library exports it, its address.
#[derive(Clone, Debug, PartialEq, Eq)]
pub struct Symbol {
    pub name: String,
    pub address: Option<usize>,
}

impl View for Symbol {
    type V = (Seq<char>, Option<usize>);

    open spec fn view(&self) -> (Seq<char>, Option<usize>) {
        (self.name@, self.address)
    }
}

pub open spec fn symbol_views(s: Seq<Symbol>) -> Seq<(Seq<char>, Option<usize>)> {
    s.map_values(|x: Symbol| x@)
}

/// Index of the first entry of `t` named `name`, or `t.len()` when none is.
pub open spec fn find_symbol(t: Seq<(Seq<char>, Option<usize>)>, name: Seq<char>, i: int) -> int
    decreases t.len() - i,
{
    if i < 0 || i >= t.len() {
        t.len() as int
    } else if t[i].0 == name {
        i
    } else {
        find_symbol(t, name, i + 1)
    }
}

/// The address the table holds for `name`: that of its first entry, `None`
/// when the symbol is not declared or did not resolve.
pub open spec fn address_of(t: Seq<(Seq<char>, Option<usize>)>, name: Seq<char>) -> Option<usize> {
    let i = find_symbol(t, name, 0);
    if 0 <= i < t.len() {
        t[i].1
    } else {
        None
    }
}

/// The release inferred from the table: that of the newest marker symbol,
/// from rank `k` on, that resolved.
pub open spec fn version_from(t: Seq<(Seq<char>, Option<usize>)>, k: int) -> Option<Version>
    decreases 11 - k,
{
    if k < 0 || k >= 11 {
        None
    } else if address_of(t, marker_at(k)) is Some {
        Some(release_at(k))
    } else {
        version_from(t, k + 1)
    }
}

fn str_eq(a: &str, b: &str) -> (r: bool)
    ensures
        r == (a@ == b@),
{
    let x = chars_of(a);
    let y = chars_of(b);
    if x.len() != y.len() {
        return false;
    }
    let mut i: usize = 0;
    while i < x.len()
        invariant
            i <= x@.len(),
            x@ == a@,
            y@ == b@,
            x@.len() == y@.len(),
            forall|k: int| 0 <= k < i ==> x@[k] == y@[k],
        decreases x@.len() - i,
    {
        if x[i] != y[i] {
            assert(a@[i as int] != b@[i as int]);
            return false;
        }
        i = i + 1;
    }
    assert(x@ =~= y@);
    true
}

/// Looks `name` up in a symbol table.
pub fn lookup(table: &Vec<Symbol>, name: &str) -> (r: Option<usize>)
    ensures
        r == address_of(symbol_views(table@), name@),
{
    let ghost t = symbol_views(table@);
    let mut i: usize = 0;
    while i < table.len()
        invariant
            i <= table@.len(),
            t == symbol_views(table@),
            find_symbol(t, name@, 0) == find_symbol(t, name@, i as int),
        decreases table@.len() - i,
    {
        assert(t[i as int] == table@[i as int]@);
        if str_eq(table[i].name.as_str(), name) {
            return table[i].address;
        }
        i = i + 1;
    }
    None
}

/// The release inferred from a symbol table: that of the newest marker
/// symbol that resolved; `None` when none did (a release older than all).
pub fn infer_version(table: &Vec<Symbol>) -> (r: Option<Version>)
    ensures
        r == version_from(symbol_views(table@), 0),
{
    let mut k: usize = 0;
    while k < MARKER_COUNT
        invariant
            k <= MARKER_COUNT,
            version_from(symbol_views(table@), 0) == version_from(symbol_views(table@), k as int),
        decreases MARKER_COUNT - k,
    {
        if lookup(table, marker_symbol(k)).is_some() {
            return Some(release(k));
        }
        k = k + 1;
    }
    None
}

/// A loaded instance of the library: the operating-system object, the path
/// it was opened from, and its table of resolved symbols.
#[derive(Debug)]
pub struct SharedLibrary<L> {
    library: L,
    path: String,
    pub functions: Vec<Symbol>,
}

impl<L> View for SharedLibrary<L> {
    type V = (Seq<char>, Seq<(Seq<char>, Option<usize>)>);

    closed spec fn view(&self) -> (Seq<char>, Seq<(Seq<char>, Option<usize>)>) {
        (self.path@, symbol_views(self.functions@))
    }
}

impl<L> SharedLibrary<L> {
    /// Wraps an opened library with the path it came from and the addresses
    /// its declared symbols resolved to.
    pub fn new(library: L, path: String, functions: Vec<Symbol>) -> (r: Self)
        ensures
            r@ == (path@, symbol_views(functions@)),
    {
        SharedLibrary { library, path, functions }
    }

    /// The path this library was opened from.
    pub fn path(&self) -> (r: &str)
        ensures
            r@ == self@.0,
    {
        self.path.as_str()
    }

    /// The operating-system object.
    pub fn library(&self) -> &L {
        &self.library
    }

    /// The address that `name` resolved to, if it did.
    pub fn function(&self, name: &str) -> (r: Option<usize>)
        ensures
            r == address_of(self@.1, name@),
    {
        lookup(&self.functions, name)
    }

    /// The (minimum) release of this library: that of the newest marker
    /// symbol it exports; `None` for a release older than every marker.
    pub fn version(&self) -> (r: Option<Version>)
        ensures
            r == version_from(self@.1, 0),
    {
        infer_version(&self.functions)
    }
}

/// A counted reference to the library a registry holds. `generation` tells
/// apart the libraries a registry has held: two references with the same
/// generation are to the same operating-system object.
#[derive(Debug)]
pub struct LibraryRef {
    generation: u64,
}

impl View for LibraryRef {
    type V = u64;

    closed spec fn view(&self) -> u64 {
        self.generation
    }
}

impl LibraryRef {
    pub fn generation(&self) -> (r: u64)
        ensures
            r == self@,
    {
        self.generation
    }
}

/// Why `unload` failed.
#[derive(Clone, Copy, Debug, PartialEq, Eq, Structural)]
pub enum UnloadError {
    /// No library is loaded.
    NotLoaded,
    /// References handed out by `load` are still alive.
    StillReferenced,
}

/// Why a bound function cannot be called.
#[derive(Clone, Debug, PartialEq, Eq)]
pub enum CallError {
    /// No library is loaded.
    NotLoaded,
    /// The loaded library does not export the function; it carries the
    /// function's name and the release the library was found to be.
    Unresolved(String, Option<Version>),
}

/// At most one loaded library, with the number of references to it that are
/// alive. Each thread that loads the library owns one registry.
#[derive(Debug)]
pub struct LoaderRegistry<L> {
    current: Option<SharedLibrary<L>>,
    references: u64,
    generation: u64,
}

/// The model of a registry: the library it holds, if any, the number of
/// references to it alive, and the generation of the last library installed.
pub type RegistryView = (Option<(Seq<char>, Seq<(Seq<char>, Option<usize>)>)>, u64, u64);

impl<L> View for LoaderRegistry<L> {
    type V = RegistryView;

    closed spec fn view(&self) -> RegistryView {
        (
            match self.current {
                Some(l) => Some(l@),
                None => None,
            },
            self.references,
            self.generation,
        )
    }
}

/// The symbol table of the library `s` holds; empty when none is loaded.
pub open spec fn loaded_table(s: RegistryView) -> Seq<(Seq<char>, Option<usize>)> {
    match s.0 {
        Some(l) => l.1,
        None => seq![],
    }
}

/// `acquire` from `s` gave `t` and the reference `r`: a loaded library is
/// shared, never opened again.
pub open spec fn acquired(s: RegistryView, t: RegistryView, r: Option<u64>) -> bool {
    if s.0 is Some {
        &&& r == Some(s.2)
        &&& t == (s.0, (s.1 + 1) as u64, s.2)
    } else {
        r is None && t == s
    }
}

/// `install` of the library `lib` in the empty `s` gave `t` and a reference
/// of generation `g`.
pub open spec fn installed(
    s: RegistryView,
    lib: (Seq<char>, Seq<(Seq<char>, Option<usize>)>),
    t: RegistryView,
    g: u64,
) -> bool {
    &&& g == s.2 + 1
    &&& t == (Some(lib), 1u64, g)
}

/// `release` of a reference of generation `g` from `s` gave `t`.
pub open spec fn released(s: RegistryView, g: u64, t: RegistryView) -> bool {
    if s.0 is Some && g == s.2 && s.1 > 0 {
        t == (s.0, (s.1 - 1) as u64, s.2)
    } else {
        t == s
    }
}

/// `unload` from `s` gave `t` and `r`: it succeeds only when no reference
/// is alive, and a failure changes nothing.
pub open spec fn unloaded(s: RegistryView, t: RegistryView, r: Result<(), UnloadError>) -> bool {
    if s.0 is None {
        r == Err::<(), UnloadError>(UnloadError::NotLoaded) && t == s
    } else if s.1 > 0 {
        r == Err::<(), UnloadError>(UnloadError::StillReferenced) && t == s
    } else {
        r is Ok && t == (None::<(Seq<char>, Seq<(Seq<char>, Option<usize>)>)>, 0u64, s.2)
    }
}

impl<L> LoaderRegistry<L> {
    /// An empty registry.
    pub fn new() -> (r: Self)
        ensures
            r@ == (None::<(Seq<char>, Seq<(Seq<char>, Option<usize>)>)>, 0u64, 0u64),
    {
        LoaderRegistry { current: None, references: 0, generation: 0 }
    }

    /// Whether a library is loaded.
    pub fn is_loaded(&self) -> (r: bool)
        ensures
            r == self@.0 is Some,
    {
        self.current.is_some()
    }

    /// The number of references to the loaded library that are alive.
    pub fn references(&self) -> (r: u64)
        ensures
            r == self@.1,
    {
        self.references
    }

    /// The generation of the last library installed (0 before the first).
    pub fn generation(&self) -> (r: u64)
        ensures
            r == self@.2,
    {
        self.generation
    }

    /// Hands out one more reference to the loaded library; `None` when no
    /// library is loaded (the caller then opens one and installs it).
    pub fn acquire(&mut self) -> (r: Option<LibraryRef>)
        requires
            old(self)@.1 < u64::MAX,
        ensures
            acquired(
                old(self)@,
                final(self)@,
                match r {
                    Some(x) => Some(x@),
                    None => None,
                },
            ),
    {
        if self.current.is_some() {
            self.references = self.references + 1;
            Some(LibraryRef { generation: self.generation })
        } else {
            None
        }
    }

    /// Makes `lib` the loaded library and hands out the first reference to it.
    pub fn install(&mut self, lib: SharedLibrary<L>) -> (r: LibraryRef)
        requires
            old(self)@.0 is None,
            old(self)@.2 < u64::MAX,
        ensures
            installed(old(self)@, lib@, final(self)@, r@),
    {
        self.generation = self.generation + 1;
        self.current = Some(lib);
        self.references = 1;
        LibraryRef { generation: self.generation }
    }

    /// Gives a reference back. One to a library this registry no longer
    /// holds changes nothing.
    pub fn release(&mut self, r: LibraryRef)
        ensures
            released(old(self)@, r@, final(self)@),
    {
        if self.current.is_some() && r.generation == self.generation && self.references > 0 {
            self.references = self.references - 1;
        }
    }

    /// Drops the loaded library, which closes it, provided no reference to
    /// it is alive.
    pub fn unload(&mut self) -> (r: Result<(), UnloadError>)
        ensures
            unloaded(old(self)@, final(self)@, r),
    {
        if self.current.is_none() {
            Err(UnloadError::NotLoaded)
        } else if self.references > 0 {
            Err(UnloadError::StillReferenced)
        } else {
            self.current = None;
            Ok(())
        }
    }

    /// The loaded library.
    pub fn library(&self) -> (r: Option<&SharedLibrary<L>>)
        ensures
            match r {
                Some(l) => self@.0 == Some(l@),
                None => self@.0 is None,
            },
    {
        match &self.current {
            Some(l) => Some(l),
            None => None,
        }
    }

    /// Whether the function `name` can be called: a library is loaded and
    /// exports it.
    pub fn is_function_loaded(&self, name: &str) -> (r: bool)
        ensures
            r == (self@.0 is Some && address_of(loaded_table(self@), name@) is Some),
    {
        match &self.current {
            Some(l) => l.function(name).is_some(),
            None => false,
        }
    }

    /// The address to call for the function `name`, or why there is none:
    /// no library is loaded, or the loaded one (of the release given) does
    /// not export it.
    pub fn function(&self, name: &str) -> (r: Result<usize, CallError>)
        ensures
            match r {
                Ok(a) => self@.0 is Some && address_of(loaded_table(self@), name@) == Some(a),
                Err(CallError::NotLoaded) => self@.0 is None,
                Err(CallError::Unresolved(n, v)) => {
                    &&& self@.0 is Some
                    &&& address_of(loaded_table(self@), name@) is None
                    &&& n@ == name@
                    &&& v == version_from(loaded_table(self@), 0)
                },
            },
    {
        match &self.current {
            None => Err(CallError::NotLoaded),
            Some(l) => match l.function(name) {
                Some(a) => Ok(a),
                None => Err(CallError::Unresolved(String::from_str(name), l.version())),
            },
        }
    }
}

/// Loading twice without unloading shares one library: after a library is
/// installed, the next load hands out a second reference of the same
/// generation and leaves the library in place.
pub proof fn lemma_second_load_shares_handle(
    start: RegistryView,
    lib: (Seq<char>, Seq<(Seq<char>, Option<usize>)>),
    loaded: RegistryView,
    first: u64,
    shared: RegistryView,
    second: Option<u64>,
)
    requires
        installed(start, lib, loaded, first),
        acquired(loaded, shared, second),
    ensures
        second == Some(first),
        shared.0 == loaded.0,
        shared.0 == Some(lib),
        shared.1 == 2,
{
}

/// `unload` fails with `StillReferenced`, changing nothing, while a second
/// reference is alive, and succeeds once both references are given back.
pub proof fn lemma_unload_waits_for_references(
    start: RegistryView,
    lib: (Seq<char>, Seq<(Seq<char>, Option<usize>)>),
    loaded: RegistryView,
    first: u64,
    shared: RegistryView,
    second: Option<u64>,
    one_left: RegistryView,
    tried: Result<(), UnloadError>,
    after_try: RegistryView,
    none_left: RegistryView,
    after_unload: RegistryView,
    done: Result<(), UnloadError>,
)
    requires
        installed(start, lib, loaded, first),
        acquired(loaded, shared, second),
        released(shared, first, one_left),
        unloaded(one_left, after_try, tried),
        second is Some,
        released(after_try, second->0, none_left),
        unloaded(none_left, after_unload, done),
    ensures
        tried == Err::<(), UnloadError>(UnloadError::StillReferenced),
        after_try == one_left,
        done is Ok,
        after_unload.0 is None,
{
}

} // verus!
