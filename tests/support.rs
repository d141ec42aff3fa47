use clang_sys::support::{has_search_list, parse_search_paths, parse_version, parse_version_number, CXVersion, Clang};
use clang_sys::search::first_line;
use clang_sys::{CXCommentKind, CXCommentParamPassDirection, CXCommentInlineCommandRenderKind};

const VERBOSE: &str = "clang version 14.0.0\nTarget: x86_64-pc-linux-gnu\n#include \"...\" search starts here:\n#include <...> search starts here:\n /usr/lib/llvm-14/lib/clang/14.0.0/include\n /usr/local/include\n /System/Library/Frameworks (framework directory)\n /usr/include\nEnd of search list.\n";

#[test]
fn version_numbers() {
    assert_eq!(parse_version_number("14"), Some(14));
    assert_eq!(parse_version_number("0rc1"), Some(0));
    assert_eq!(parse_version_number("git"), None);
    assert_eq!(parse_version_number("99999999999"), None);
}

#[test]
fn versions_from_clang_output() {
    assert_eq!(
        parse_version("Ubuntu clang version 14.0.6-2\nTarget: x86_64"),
        Some(CXVersion { Major: 14, Minor: 0, Subminor: 6 }),
    );
    assert_eq!(parse_version("clang version 3.9 (tags)"), Some(CXVersion { Major: 3, Minor: 9, Subminor: 0 }));
    assert_eq!(parse_version("clang version 15"), None);
    assert_eq!(parse_version("no marker here"), None);
}

#[test]
fn search_paths_from_clang_output() {
    assert!(has_search_list(VERBOSE));
    assert!(!has_search_list("End of search list.\n#include <...> search starts here:\n"));
    assert_eq!(
        parse_search_paths(VERBOSE),
        vec!["/usr/lib/llvm-14/lib/clang/14.0.0/include", "/usr/local/include", "/System/Library/Frameworks", "/usr/include"],
    );
    let clang = Clang::new("/usr/bin/clang".to_string(), "clang version 14.0.0", VERBOSE, VERBOSE);
    assert_eq!(clang.version, Some(CXVersion { Major: 14, Minor: 0, Subminor: 0 }));
    assert_eq!(clang.cpp_search_paths.len(), 4);
}

#[test]
fn first_line_of_tool_output() {
    assert_eq!(first_line("/usr/lib/llvm-14\r\nmore"), Some("/usr/lib/llvm-14".to_string()));
    assert_eq!(first_line("/opt/llvm"), Some("/opt/llvm".to_string()));
    assert_eq!(first_line(""), None);
}

#[test]
fn comment_enum_values() {
    assert_eq!(CXCommentKind::FullComment.raw(), 12);
    assert_eq!(CXCommentKind::from_raw(3), Some(CXCommentKind::HTMLStartTag));
    assert_eq!(CXCommentKind::from_raw(13), None);
    assert_eq!(CXCommentParamPassDirection::from_raw(2), Some(CXCommentParamPassDirection::InOut));
    assert_eq!(CXCommentInlineCommandRenderKind::Emphasized.raw(), 3);
}
