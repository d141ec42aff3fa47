use clang_sys::registry::{
    infer_version, lookup, marker_symbol, CallError, LoaderRegistry, SharedLibrary, Symbol,
    UnloadError, Version, MARKER_COUNT,
};

fn symbol(name: &str, address: Option<usize>) -> Symbol {
    Symbol { name: name.to_string(), address }
}

fn library(tag: u32, functions: Vec<Symbol>) -> SharedLibrary<u32> {
    SharedLibrary::new(tag, "/usr/lib/libclang.so".to_string(), functions)
}

#[test]
fn second_load_shares_the_library() {
    let mut registry: LoaderRegistry<u32> = LoaderRegistry::new();
    assert!(!registry.is_loaded());
    assert!(registry.acquire().is_none());
    let first = registry.install(library(7, vec![]));
    let second = registry.acquire().unwrap();
    assert_eq!(first.generation(), second.generation());
    assert_eq!(registry.references(), 2);
    assert_eq!(*registry.library().unwrap().library(), 7);
}

#[test]
fn unload_waits_for_the_last_reference() {
    let mut registry: LoaderRegistry<u32> = LoaderRegistry::new();
    assert_eq!(registry.unload(), Err(UnloadError::NotLoaded));
    let first = registry.install(library(1, vec![]));
    let second = registry.acquire().unwrap();
    registry.release(first);
    assert_eq!(registry.unload(), Err(UnloadError::StillReferenced));
    assert!(registry.is_loaded());
    registry.release(second);
    assert_eq!(registry.unload(), Ok(()));
    assert!(!registry.is_loaded());
    assert_eq!(
        UnloadError::StillReferenced.message(),
        "the `libclang` shared library is still referenced by the current thread",
    );
}

#[test]
fn stale_reference_changes_nothing() {
    let mut registry: LoaderRegistry<u32> = LoaderRegistry::new();
    let old = registry.install(library(1, vec![]));
    registry.release(old);
    assert_eq!(registry.unload(), Ok(()));
    let old_again = LoaderRegistry::<u32>::new().install(library(9, vec![]));
    let fresh = registry.install(library(2, vec![]));
    assert_ne!(fresh.generation(), 1);
    registry.release(old_again);
    assert_eq!(registry.references(), 1);
}

#[test]
fn functions_resolve_or_report_why_not() {
    let mut registry: LoaderRegistry<u32> = LoaderRegistry::new();
    assert_eq!(registry.function("clang_createIndex"), Err(CallError::NotLoaded));
    assert!(!registry.is_function_loaded("clang_createIndex"));
    let functions = vec![
        symbol("clang_createIndex", Some(0x1000)),
        symbol("clang_Cursor_isAnonymousRecordDecl", None),
        symbol("clang_CXXConstructor_isConvertingConstructor", Some(0x2000)),
    ];
    let _r = registry.install(library(3, functions));
    assert_eq!(registry.function("clang_createIndex"), Ok(0x1000));
    assert!(registry.is_function_loaded("clang_createIndex"));
    let err = registry.function("clang_Cursor_isAnonymousRecordDecl").unwrap_err();
    assert_eq!(
        err,
        CallError::Unresolved("clang_Cursor_isAnonymousRecordDecl".to_string(), Some(Version::V3_9)),
    );
    assert!(err.message().contains("release 3.9 or later"));
    assert_eq!(registry.library().unwrap().path(), "/usr/lib/libclang.so");
}

#[test]
fn version_is_the_newest_marker_present() {
    assert_eq!(infer_version(&vec![]), None);
    let all: Vec<Symbol> = (0..MARKER_COUNT).map(|k| symbol(marker_symbol(k), Some(k + 1))).collect();
    assert_eq!(infer_version(&all), Some(Version::V9_0));
    let old = vec![symbol("clang_Type_getNumTemplateArguments", Some(1)), symbol("clang_Cursor_getStorageClass", None)];
    assert_eq!(infer_version(&old), Some(Version::V3_5));
    assert_eq!(lookup(&old, "clang_Type_getNumTemplateArguments"), Some(1));
    assert_eq!(lookup(&old, "clang_missing"), None);
    assert_eq!(library(0, old).version(), Some(Version::V3_5));
}
