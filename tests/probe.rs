use clang_sys::probe::{probe_elf, probe_pe, validate_header, Arch, ArchitectureInfo, ImageFormat, RejectReason};
use clang_sys::search::sibling_directory;
use clang_sys::search::{file_patterns, Os};

fn dll(machine: u16, magic: u16) -> Vec<u8> {
    let mut contents = vec![0u8; 64];
    contents[0x3C..0x40].copy_from_slice(&i32::to_le_bytes(10));
    contents[10..14].copy_from_slice(&[b'P', b'E', 0, 0]);
    contents[14..16].copy_from_slice(&u16::to_le_bytes(machine));
    contents[34..36].copy_from_slice(&u16::to_le_bytes(magic));
    contents
}

#[test]
fn pe_headers() {
    assert_eq!(probe_pe(&dll(0xAA64, 523)), Some(ArchitectureInfo { arch: Some(Arch::Aarch64), pointer_width: 64 }));
    assert_eq!(probe_pe(&dll(0x014C, 267)), Some(ArchitectureInfo { arch: Some(Arch::X86), pointer_width: 32 }));
    assert_eq!(probe_pe(&dll(0x0200, 523)), Some(ArchitectureInfo { arch: Some(Arch::Other(0x0200)), pointer_width: 64 }));
    assert_eq!(probe_pe(&dll(0x8664, 0x1234)), None);
    assert_eq!(probe_pe(&dll(0x8664, 523)[..40]), None);
    let mut bad = dll(0x8664, 523);
    bad[11] = b'X';
    assert_eq!(probe_pe(&bad), None);
}

#[test]
fn elf_headers() {
    assert_eq!(probe_elf(&[127, 69, 76, 70, 2]), Some(ArchitectureInfo { arch: None, pointer_width: 64 }));
    assert_eq!(probe_elf(&[127, 69, 76, 70, 1, 0, 0]), Some(ArchitectureInfo { arch: None, pointer_width: 32 }));
    assert_eq!(probe_elf(&[127, 69, 76, 70, 3]), None);
    assert_eq!(probe_elf(&[127, 69, 76]), None);
}

#[test]
fn validation_names_the_mismatch() {
    let arm = dll(0xAA64, 523);
    assert_eq!(
        validate_header(ImageFormat::Pe, Arch::X86_64, 64, Some(&arm)),
        Err(RejectReason::WrongArchitecture(Arch::Aarch64)),
    );
    let x86 = dll(0x014C, 267);
    assert_eq!(
        validate_header(ImageFormat::Pe, Arch::X86_64, 64, Some(&x86)),
        Err(RejectReason::WrongArchitecture(Arch::X86)),
    );
    let narrow = dll(0x8664, 267);
    assert_eq!(validate_header(ImageFormat::Pe, Arch::X86_64, 64, Some(&narrow)), Err(RejectReason::WrongPointerWidth(32)));
    assert_eq!(validate_header(ImageFormat::Pe, Arch::X86_64, 64, Some(&dll(0x8664, 523))), Ok(()));
    assert_eq!(validate_header(ImageFormat::Elf, Arch::X86_64, 32, Some(&[127, 69, 76, 70, 2])), Err(RejectReason::WrongPointerWidth(64)));
    assert_eq!(validate_header(ImageFormat::Elf, Arch::X86_64, 64, None), Err(RejectReason::Unreadable));
}

#[test]
fn siblings_and_file_patterns() {
    assert_eq!(sibling_directory(Os::Windows, "C:\\LLVM\\lib"), Some("C:\\LLVM\\bin".to_string()));
    assert_eq!(sibling_directory(Os::Windows, "C:\\LLVM\\bin"), Some("C:\\LLVM\\lib".to_string()));
    assert_eq!(sibling_directory(Os::Windows, "C:\\LLVM\\mylib"), None);
    assert_eq!(sibling_directory(Os::Linux, "/usr/lib"), None);
    let names = vec!["libclang.so".to_string(), "libclang-*.so".to_string()];
    assert_eq!(
        file_patterns(Os::Linux, "/opt/llvm[14]/lib?", &names),
        vec!["/opt/llvm[[]14[]]/lib[?]/libclang.so".to_string(), "/opt/llvm[[]14[]]/lib[?]/libclang-*.so".to_string()],
    );
}
