use clang_sys::messages::reason_message;
use clang_sys::probe::{Arch, RejectReason};
use clang_sys::search::{
    backup_directories, library_filenames, search_plan, sibling_directory, Os, SearchConfig,
    Toolchain,
};
use clang_sys::select::{candidate_from_match, find, FindError, Probed, Rejection};
use clang_sys::version::parse_filename_version;

use glob::{MatchOptions, Pattern};

fn pe_machine(arch: Arch) -> u16 {
    match arch {
        Arch::Aarch64 => 0xAA64,
        Arch::X86 => 0x014C,
        Arch::X86_64 => 0x8664,
        Arch::Unknown => 0xFFFF,
        Arch::Other(code) => code,
    }
}

fn dll(arch: Arch, pointer_width: u32) -> Vec<u8> {
    let mut contents = vec![0u8; 64];
    contents[0x3C..0x3C + 4].copy_from_slice(&i32::to_le_bytes(10));
    contents[10..14].copy_from_slice(&[b'P', b'E', 0, 0]);
    contents[14..16].copy_from_slice(&u16::to_le_bytes(pe_machine(arch)));
    let magic: u16 = if pointer_width == 64 { 523 } else { 267 };
    contents[34..36].copy_from_slice(&u16::to_le_bytes(magic));
    contents
}

fn so(pointer_width: u32) -> Vec<u8> {
    let class = if pointer_width == 64 { 2 } else { 1 };
    vec![127, 69, 76, 70, class]
}

fn config(os: Os, arch: Arch, toolchain: Toolchain) -> SearchConfig {
    SearchConfig {
        os,
        arch,
        pointer_width: 64,
        toolchain,
        override_path: None,
        tool_prefix: None,
    }
}

/// Runs the search over an in-memory tree: `dirs` are the directories that
/// exist, `files` the files (path, header) in them. Directory globs are made
/// relative the way a test tree rooted in a scratch directory would see them.
fn find_in(cfg: &SearchConfig, dirs: &[&str], files: &[(&str, Vec<u8>)]) -> Result<(String, String), FindError> {
    let sep = if cfg.os == Os::Windows { '\\' } else { '/' };
    let mut all_dirs: Vec<String> = dirs.iter().map(|d| d.to_string()).collect();
    for (path, _) in files {
        let dir = &path[..path.rfind(sep).unwrap()];
        if !all_dirs.iter().any(|d| d == dir) {
            all_dirs.push(dir.to_string());
        }
    }
    let names = library_filenames(cfg.os, true);
    let options = MatchOptions { case_sensitive: false, require_literal_separator: true, require_literal_leading_dot: false };
    let mut found = Vec::new();
    for entry in search_plan(cfg) {
        let pattern = entry.path.trim_start_matches('/').trim_start_matches("C:\\");
        let pattern = Pattern::new(pattern).unwrap();
        for dir in all_dirs.iter().filter(|d| pattern.matches_with(d, options)) {
            let mut searched = vec![dir.clone()];
            if let Some(sibling) = sibling_directory(cfg.os, dir) {
                searched.push(sibling);
            }
            for d in searched {
                for (path, header) in files {
                    let (parent, name) = path.split_at(path.rfind(sep).unwrap());
                    let name = &name[1..];
                    if parent != d || !names.iter().any(|n| Pattern::new(n).unwrap().matches(name)) {
                        continue;
                    }
                    if let Some(candidate) = candidate_from_match(d.clone(), name.to_string(), entry.priority) {
                        found.push(Probed { candidate, header: Some(header.clone()) });
                    }
                }
            }
        }
    }
    find(cfg, &found)
}

fn linux_directory_preference() {
    let cfg = config(Os::Linux, Arch::X86_64, Toolchain::Gnu);
    let files = [("usr/lib/libclang.so.1", so(64)), ("usr/local/lib/libclang.so.1", so(64))];
    assert_eq!(
        find_in(&cfg, &[], &files),
        Ok(("usr/local/lib".to_string(), "libclang.so.1".to_string())),
    );
}

fn linux_version_preference() {
    let cfg = config(Os::Linux, Arch::X86_64, Toolchain::Gnu);
    let files = [
        ("usr/lib/libclang-3.so", so(64)),
        ("usr/lib/libclang-3.5.so", so(64)),
        ("usr/lib/libclang-3.5.0.so", so(64)),
    ];
    assert_eq!(
        find_in(&cfg, &[], &files),
        Ok(("usr/lib".to_string(), "libclang-3.5.0.so".to_string())),
    );
}

fn linux_directory_and_version_preference() {
    let cfg = config(Os::Linux, Arch::X86_64, Toolchain::Gnu);
    let files = [
        ("usr/local/llvm/lib/libclang-3.so", so(64)),
        ("usr/local/lib/libclang-3.5.so", so(64)),
        ("usr/lib/libclang-3.5.0.so", so(64)),
    ];
    assert_eq!(
        find_in(&cfg, &[], &files),
        Ok(("usr/lib".to_string(), "libclang-3.5.0.so".to_string())),
    );
}

#[test]
fn test_all() {
    linux_directory_preference();
    linux_version_preference();
    linux_directory_and_version_preference();
}

#[test]
fn equal_versions_prefer_higher_priority_directory() {
    linux_directory_preference();
}

#[test]
fn version_beats_directory_priority() {
    linux_directory_and_version_preference();
}

#[test]
fn greatest_version_in_one_directory_wins() {
    linux_version_preference();
}

#[test]
fn scan_order_does_not_change_the_choice() {
    let cfg = config(Os::Linux, Arch::X86_64, Toolchain::Gnu);
    let a = candidate_from_match("usr/lib".into(), "libclang.so.1".into(), 0).unwrap();
    let b = candidate_from_match("usr/local/lib".into(), "libclang.so.1".into(), 3).unwrap();
    let c = candidate_from_match("usr/lib/llvm".into(), "libclang.so.1".into(), 1).unwrap();
    let probed = |c: &clang_sys::select::Candidate| Probed { candidate: c.clone(), header: Some(so(64)) };
    let orders = [[&a, &b, &c], [&c, &b, &a], [&b, &a, &c], [&c, &a, &b]];
    for order in orders {
        let found: Vec<Probed> = order.iter().map(|c| probed(c)).collect();
        assert_eq!(find(&cfg, &found), Ok(("usr/local/lib".to_string(), "libclang.so.1".to_string())));
    }
}

#[test]
fn equal_rank_is_settled_by_path() {
    let cfg = config(Os::Linux, Arch::X86_64, Toolchain::Gnu);
    let a = candidate_from_match("usr/lib/x86_64-linux-gnu".into(), "libclang.so".into(), 1).unwrap();
    let b = candidate_from_match("usr/lib/llvm-14".into(), "libclang.so".into(), 1).unwrap();
    for found in [vec![a.clone(), b.clone()], vec![b.clone(), a.clone()]] {
        let found: Vec<Probed> = found.into_iter().map(|candidate| Probed { candidate, header: Some(so(64)) }).collect();
        assert_eq!(find(&cfg, &found), Ok(("usr/lib/llvm-14".to_string(), "libclang.so".to_string())));
    }
}

#[test]
fn windows_bin_sibling() {
    let cfg = config(Os::Windows, Arch::X86_64, Toolchain::Msvc);
    let files = [("Program Files\\LLVM\\bin\\libclang.dll", dll(Arch::X86_64, 64))];
    assert_eq!(
        find_in(&cfg, &["Program Files\\LLVM\\lib"], &files),
        Ok(("Program Files\\LLVM\\bin".to_string(), "libclang.dll".to_string())),
    );
}

#[test]
fn windows_mingw_gnu() {
    let cfg = config(Os::Windows, Arch::X86_64, Toolchain::Gnu);
    let files = [
        ("MSYS\\MinGW\\bin\\clang.dll", dll(Arch::X86_64, 64)),
        ("Program Files\\LLVM\\bin\\libclang.dll", dll(Arch::X86_64, 64)),
    ];
    assert_eq!(
        find_in(&cfg, &["MSYS\\MinGW\\lib", "Program Files\\LLVM\\lib"], &files),
        Ok(("MSYS\\MinGW\\bin".to_string(), "clang.dll".to_string())),
    );
}

#[test]
fn windows_mingw_msvc() {
    let cfg = config(Os::Windows, Arch::X86_64, Toolchain::Msvc);
    let files = [
        ("MSYS\\MinGW\\bin\\clang.dll", dll(Arch::X86_64, 64)),
        ("Program Files\\LLVM\\bin\\libclang.dll", dll(Arch::X86_64, 64)),
    ];
    assert_eq!(
        find_in(&cfg, &["MSYS\\MinGW\\lib", "Program Files\\LLVM\\lib"], &files),
        Ok(("Program Files\\LLVM\\bin".to_string(), "libclang.dll".to_string())),
    );
}

#[test]
fn windows_arm64_on_x86_64() {
    let cfg = config(Os::Windows, Arch::X86_64, Toolchain::Msvc);
    let files = [("Program Files\\LLVM\\bin\\libclang.dll", dll(Arch::Aarch64, 64))];
    let result = find_in(&cfg, &["Program Files\\LLVM\\lib"], &files);
    assert_eq!(
        result,
        Err(FindError::InvalidCandidate(vec![Rejection {
            candidate: candidate_from_match("Program Files\\LLVM\\bin".to_string(), "libclang.dll".to_string(), 2).unwrap(),
            reason: RejectReason::WrongArchitecture(Arch::Aarch64),
        }])),
    );
    let message = result.unwrap_err().message(cfg.os, &library_filenames(cfg.os, true));
    assert!(message.contains("invalid: [(Program Files\\LLVM\\bin\\libclang.dll: invalid DLL (ARM64)"), "{}", message);
}

#[test]
fn windows_x86_64_on_arm64() {
    let cfg = config(Os::Windows, Arch::Aarch64, Toolchain::Msvc);
    let files = [("Program Files\\LLVM\\bin\\libclang.dll", dll(Arch::X86_64, 64))];
    let result = find_in(&cfg, &["Program Files\\LLVM\\lib"], &files);
    let message = result.unwrap_err().message(cfg.os, &library_filenames(cfg.os, true));
    assert!(message.contains("invalid: [(Program Files\\LLVM\\bin\\libclang.dll: invalid DLL (x86-64)"), "{}", message);
}

#[test]
fn foreign_architecture_with_highest_version_is_not_chosen() {
    let cfg = config(Os::Windows, Arch::X86_64, Toolchain::Msvc);
    let good = candidate_from_match("C:\\LLVM\\bin".into(), "libclang.dll".into(), 1).unwrap();
    let mut foreign = candidate_from_match("C:\\Program Files\\LLVM\\bin".into(), "libclang.dll".into(), 2).unwrap();
    foreign.version = vec![99];
    let found = vec![
        Probed { candidate: foreign, header: Some(dll(Arch::Aarch64, 64)) },
        Probed { candidate: good, header: Some(dll(Arch::X86_64, 64)) },
    ];
    assert_eq!(find(&cfg, &found), Ok(("C:\\LLVM\\bin".to_string(), "libclang.dll".to_string())));
}

#[test]
fn nothing_found_and_override_errors() {
    let mut cfg = config(Os::Linux, Arch::X86_64, Toolchain::Gnu);
    assert_eq!(find(&cfg, &vec![]), Err(FindError::NotFound));
    cfg.override_path = Some("/opt/llvm/lib".to_string());
    assert_eq!(find(&cfg, &vec![]), Err(FindError::NotFoundAtOverride("/opt/llvm/lib".to_string())));
    let plan = search_plan(&cfg);
    assert_eq!(plan.len(), 1);
    assert_eq!(plan[0].path, "/opt/llvm/lib");
    assert!(!plan[0].is_pattern);
    let message = FindError::NotFoundAtOverride("/opt/llvm/lib".into()).message(cfg.os, &library_filenames(cfg.os, false));
    assert!(message.contains("['libclang.so', 'libclang-*.so'] in /opt/llvm/lib"), "{}", message);
}

#[test]
fn pointer_width_and_invalid_headers_are_reported() {
    let cfg = config(Os::Linux, Arch::X86_64, Toolchain::Gnu);
    let c = |name: &str| candidate_from_match("usr/lib".into(), name.into(), 0).unwrap();
    let found = vec![
        Probed { candidate: c("libclang.so"), header: Some(so(32)) },
        Probed { candidate: c("libclang-9.so"), header: Some(vec![1, 2, 3]) },
        Probed { candidate: c("libclang-10.so"), header: None },
    ];
    let result = find(&cfg, &found);
    let reasons: Vec<RejectReason> = match &result {
        Err(FindError::InvalidCandidate(rs)) => rs.iter().map(|r| r.reason).collect(),
        other => panic!("unexpected {:?}", other),
    };
    assert_eq!(
        reasons,
        vec![RejectReason::Unreadable, RejectReason::InvalidHeader, RejectReason::WrongPointerWidth(32)],
    );
    assert_eq!(reason_message(RejectReason::WrongPointerWidth(32)), "invalid pointer width (32-bit)");
}

#[test]
fn tool_prefix_directories_outrank_conventional_ones() {
    let mut cfg = config(Os::Linux, Arch::X86_64, Toolchain::Gnu);
    cfg.tool_prefix = Some("/opt/llvm".to_string());
    let plan = search_plan(&cfg);
    let n = backup_directories(Os::Linux, Toolchain::Gnu).len() as u64;
    assert_eq!(n, 7);
    assert_eq!(plan.len(), 9);
    assert_eq!((plan[0].path.as_str(), plan[0].priority), ("/opt/llvm/bin", n + 1));
    assert_eq!((plan[1].path.as_str(), plan[1].priority), ("/opt/llvm/lib", n));
    assert_eq!((plan[2].path.as_str(), plan[2].priority, plan[2].is_pattern), ("/usr/lib*", 0, true));
    assert_eq!(plan[8].path, "/usr/local/llvm*/lib");
}

#[test]
fn cpp_library_is_no_candidate() {
    assert!(candidate_from_match("usr/lib".into(), "libclang-cpp.so.14".into(), 0).is_none());
    let c = candidate_from_match("usr/lib".into(), "libclang-14.so.1".into(), 2).unwrap();
    assert_eq!(c.version, vec![14]);
    assert_eq!(c.priority, 2);
}

#[test]
fn filename_versions() {
    assert_eq!(parse_filename_version("libclang-3.5.0.so"), vec![3, 5, 0]);
    assert_eq!(parse_filename_version("libclang-3.5.so"), vec![3, 5]);
    assert_eq!(parse_filename_version("libclang.so.14.0.6"), vec![14, 0, 6]);
    assert_eq!(parse_filename_version("libclang.so"), Vec::<u32>::new());
    assert_eq!(parse_filename_version("libclang.dll"), Vec::<u32>::new());
    assert_eq!(parse_filename_version("libclang-3.5.0rc1.so"), vec![3, 5, 0]);
    assert_eq!(parse_filename_version("libclang.so.99999999999"), vec![u32::MAX]);
}

#[test]
fn rejections_are_listed_in_rank_order_whatever_the_scan_order() {
    let cfg = config(Os::Linux, Arch::X86_64, Toolchain::Gnu);
    let c = |dir: &str, name: &str, priority: u64| candidate_from_match(dir.into(), name.into(), priority).unwrap();
    let found = vec![
        Probed { candidate: c("usr/lib", "libclang.so", 0), header: None },
        Probed { candidate: c("usr/local/lib", "libclang.so", 3), header: None },
        Probed { candidate: c("usr/lib", "libclang-3.5.so", 0), header: Some(so(32)) },
        Probed { candidate: c("usr/lib", "libclang-9.so", 0), header: Some(vec![0; 3]) },
    ];
    let expected: Vec<(String, String)> = vec![
        ("usr/lib".into(), "libclang-9.so".into()),
        ("usr/lib".into(), "libclang-3.5.so".into()),
        ("usr/local/lib".into(), "libclang.so".into()),
        ("usr/lib".into(), "libclang.so".into()),
    ];
    let first = find(&cfg, &found);
    let mut reversed = found.clone();
    reversed.reverse();
    let second = find(&cfg, &reversed);
    assert_eq!(first, second);
    match first {
        Err(FindError::InvalidCandidate(rs)) => {
            let listed: Vec<(String, String)> =
                rs.iter().map(|r| (r.candidate.directory.clone(), r.candidate.filename.clone())).collect();
            assert_eq!(listed, expected);
        }
        other => panic!("unexpected {:?}", other),
    }
}
