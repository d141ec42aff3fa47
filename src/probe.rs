use vstd::prelude::*;

verus! {

/// How many leading bytes of a candidate file are read to probe its header.
pub const PROBE_LEN: usize = 4096;

/// A CPU architecture, as a portable-executable image names it.
#[derive(Clone, Copy, Debug, PartialEq, Eq, Structural)]
pub enum Arch {
    X86,
    X86_64,
    Aarch64,
    /// An architecture that no machine type this library knows names: the
    /// host's when it is none of the above. No image is ever tagged with it.
    Unknown,
    /// A machine type this library has no tag for, with its raw code.
    Other(u16),
}

pub open spec fn arch_of_machine(code: u16) -> Arch {
    if code == 0x014C {
        Arch::X86
    } else if code == 0x8664 {
        Arch::X86_64
    } else if code == 0xAA64 {
        Arch::Aarch64
    } else {
        Arch::Other(code)
    }
}

impl Arch {
    /// Maps a portable-executable machine-type code to its architecture.
    pub fn from_pe_machine(code: u16) -> (r: Arch)
        ensures
            r == arch_of_machine(code),
    {
        if code == 0x014C {
            Arch::X86
        } else if code == 0x8664 {
            Arch::X86_64
        } else if code == 0xAA64 {
            Arch::Aarch64
        } else {
            Arch::Other(code)
        }
    }
}

/// The binary image format whose header is probed.
#[derive(Clone, Copy, Debug, PartialEq, Eq, Structural)]
pub enum ImageFormat {
    /// Portable executable (Windows DLLs): machine type and pointer width.
    Pe,
    /// ELF: pointer width only.
    Elf,
}

/// What a header says of the build: its architecture where the format names
/// one, and its pointer width in bits.
#[derive(Clone, Copy, Debug, PartialEq, Eq, Structural)]
pub struct ArchitectureInfo {
    pub arch: Option<Arch>,
    pub pointer_width: u32,
}

/// Why a candidate file was turned down.
#[derive(Clone, Copy, Debug, PartialEq, Eq, Structural)]
pub enum RejectReason {
    /// Built for another CPU architecture, named here.
    WrongArchitecture(Arch),
    /// Built for another pointer width, given here in bits.
    WrongPointerWidth(u32),
    /// The header is too short or carries the wrong magic bytes.
    InvalidHeader,
    /// The file could not be read.
    Unreadable,
}

pub open spec fn le16(b: Seq<u8>, i: int) -> nat {
    b[i] as nat + 256 * (b[i + 1] as nat)
}

pub open spec fn le32(b: Seq<u8>, i: int) -> nat {
    le16(b, i) + 65536 * le16(b, i + 2)
}

pub open spec fn pe_signature_at(b: Seq<u8>, o: int) -> bool {
    b[o] == 0x50 && b[o + 1] == 0x45 && b[o + 2] == 0 && b[o + 3] == 0
}

/// The header of a portable-executable image: the little-endian `i32` at
/// `0x3C` locates the `PE\0\0` signature, the machine type follows it, and
/// the optional header's magic (267 for 32-bit, 523 for 64-bit) stands 24
/// bytes after the signature.
pub open spec fn pe_info(b: Seq<u8>) -> Option<ArchitectureInfo> {
    if b.len() < 0x40 || b[0x3F] >= 128 {
        None
    } else {
        let o = le32(b, 0x3C) as int;
        if o + 26 > b.len() || !pe_signature_at(b, o) {
            None
        } else {
            let magic = le16(b, o + 24);
            if magic != 267 && magic != 523 {
                None
            } else {
                Some(
                    ArchitectureInfo {
                        arch: Some(arch_of_machine(le16(b, o + 4) as u16)),
                        pointer_width: if magic == 267 {
                            32
                        } else {
                            64
                        },
                    },
                )
            }
        }
    }
}

/// The header of an ELF image: the magic `\x7FELF` and the class byte
/// (1 for 32-bit, 2 for 64-bit).
pub open spec fn elf_info(b: Seq<u8>) -> Option<ArchitectureInfo> {
    if b.len() < 5 || b[0] != 0x7F || b[1] != 0x45 || b[2] != 0x4C || b[3] != 0x46 {
        None
    } else if b[4] == 1 {
        Some(ArchitectureInfo { arch: None, pointer_width: 32 })
    } else if b[4] == 2 {
        Some(ArchitectureInfo { arch: None, pointer_width: 64 })
    } else {
        None
    }
}

pub open spec fn header_info(format: ImageFormat, b: Seq<u8>) -> Option<ArchitectureInfo> {
    match format {
        ImageFormat::Pe => pe_info(b),
        ImageFormat::Elf => elf_info(b),
    }
}

/// The verdict on a candidate whose leading bytes are `b` (`None` when it
/// could not be read), for a host of the given architecture and pointer
/// width. A different architecture is named even where the pointer widths
/// agree.
pub open spec fn header_verdict(
    format: ImageFormat,
    host_arch: Arch,
    host_width: u32,
    b: Option<Seq<u8>>,
) -> Result<(), RejectReason> {
    match b {
        None => Err(RejectReason::Unreadable),
        Some(b) => match header_info(format, b) {
            None => Err(RejectReason::InvalidHeader),
            Some(info) => {
                if info.arch is Some && info.arch->0 != host_arch {
                    Err(RejectReason::WrongArchitecture(info.arch->0))
                } else if info.pointer_width != host_width {
                    Err(RejectReason::WrongPointerWidth(info.pointer_width))
                } else {
                    Ok(())
                }
            },
        },
    }
}

fn read_le16(b: &[u8], i: usize) -> (r: u64)
    requires
        i + 1 < b@.len(),
    ensures
        r == le16(b@, i as int),
{
    b[i] as u64 + 256 * (b[i + 1] as u64)
}

/// Reads the header of a portable-executable image.
pub fn probe_pe(b: &[u8]) -> (r: Option<ArchitectureInfo>)
    ensures
        r == pe_info(b@),
{
    if b.len() < 0x40 || b[0x3F] >= 128 {
        return None;
    }
    let o64 = read_le16(b, 0x3C) + 65536 * read_le16(b, 0x3E);
    if o64 + 26 > b.len() as u64 {
        return None;
    }
    let o = o64 as usize;
    if !(b[o] == 0x50 && b[o + 1] == 0x45 && b[o + 2] == 0 && b[o + 3] == 0) {
        return None;
    }
    let magic = read_le16(b, o + 24);
    if magic != 267 && magic != 523 {
        return None;
    }
    let machine = read_le16(b, o + 4) as u16;
    let width: u32 = if magic == 267 {
        32
    } else {
        64
    };
    Some(ArchitectureInfo { arch: Some(Arch::from_pe_machine(machine)), pointer_width: width })
}

/// Reads the header of an ELF image.
pub fn probe_elf(b: &[u8]) -> (r: Option<ArchitectureInfo>)
    ensures
        r == elf_info(b@),
{
    if b.len() < 5 || b[0] != 0x7F || b[1] != 0x45 || b[2] != 0x4C || b[3] != 0x46 {
        None
    } else if b[4] == 1 {
        Some(ArchitectureInfo { arch: None, pointer_width: 32 })
    } else if b[4] == 2 {
        Some(ArchitectureInfo { arch: None, pointer_width: 64 })
    } else {
        None
    }
}

/// Reads the header of an image of the given format.
pub fn probe_header(format: ImageFormat, b: &[u8]) -> (r: Option<ArchitectureInfo>)
    ensures
        r == header_info(format, b@),
{
    match format {
        ImageFormat::Pe => probe_pe(b),
        ImageFormat::Elf => probe_elf(b),
    }
}

/// Decides whether a candidate whose leading bytes are `bytes` (`None` when
/// unreadable) can be loaded by a host of the given architecture and pointer
/// width.
pub fn validate_header(
    format: ImageFormat,
    host_arch: Arch,
    host_width: u32,
    bytes: Option<&[u8]>,
) -> (r: Result<(), RejectReason>)
    ensures
        r == header_verdict(
            format,
            host_arch,
            host_width,
            match bytes {
                Some(b) => Some(b@),
                None => None,
            },
        ),
{
    match bytes {
        None => Err(RejectReason::Unreadable),
        Some(b) => match probe_header(format, b) {
            None => Err(RejectReason::InvalidHeader),
            Some(info) => {
                match info.arch {
                    Some(a) => {
                        if a != host_arch {
                            return Err(RejectReason::WrongArchitecture(a));
                        }
                    },
                    None => {},
                }
                if info.pointer_width != host_width {
                    Err(RejectReason::WrongPointerWidth(info.pointer_width))
                } else {
                    Ok(())
                }
            },
        },
    }
}

} // verus!
