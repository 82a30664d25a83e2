//! Firmware files: telling raw binaries from ELF files, and reading the loadable segments of
//! a 32-bit little-endian ELF file.
use crate::memory::{copy_bytes, le16, le32, FirmwareImage, FirmwareSegment};
use vstd::prelude::*;

verus! {

/// The format of a firmware file.
#[derive(Debug, Clone, Copy, PartialEq, Eq, Structural)]
pub enum FirmwareFormat {
    Bin,
    Elf,
}

/// Loads firmware files into images.
pub struct FirmwareLoader;

/// The bytes begin with the ELF magic `0x7F 'E' 'L' 'F'`.
pub open spec fn has_elf_magic(b: Seq<u8>) -> bool {
    b.len() >= 4 && b[0] == 0x7F && b[1] == 0x45 && b[2] == 0x4C && b[3] == 0x46
}

/// The format of a file with extension `ext` and contents `b`: ELF by magic or by the
/// extension "elf", otherwise a raw binary.
pub open spec fn spec_detect_format(ext: Option<Seq<char>>, b: Seq<u8>) -> FirmwareFormat {
    if has_elf_magic(b) || ext == Some("elf"@) {
        FirmwareFormat::Elf
    } else {
        FirmwareFormat::Bin
    }
}

/// A loaded segment as plain values: load address and bytes.
pub open spec fn segment_view(s: FirmwareSegment) -> (u64, Seq<u8>) {
    (s.load_address, s.bytes@)
}

/// The segment of program header at `base`: `filesz` file bytes from `offset`, padded with
/// zeros to `memsz`, at the physical address.
pub open spec fn load_segment(b: Seq<u8>, base: int) -> (u64, Seq<u8>) {
    let offset = le32(b, base + 4) as int;
    let filesz = le32(b, base + 16) as int;
    let memsz = le32(b, base + 20) as int;
    let total = if memsz > filesz { memsz } else { filesz };
    (le32(b, base + 12) as u64, b.subrange(offset, offset + filesz) + Seq::new((total - filesz) as nat, |i: int| 0u8))
}

/// The segments of the first `n` program headers (`es` bytes apart from `phoff`), or the
/// message of the first error. Only PT_LOAD headers with a non-empty size give a segment.
pub open spec fn elf_segments(b: Seq<u8>, phoff: int, es: int, n: nat) -> Result<Seq<(u64, Seq<u8>)>, Seq<char>>
    decreases n,
{
    if n == 0 {
        Ok(Seq::empty())
    } else {
        match elf_segments(b, phoff, es, (n - 1) as nat) {
            Err(e) => Err(e),
            Ok(segs) => {
                let base = phoff + (n - 1) * es;
                if base + 32 > b.len() {
                    Err("ELF program header exceeds file length"@)
                } else if le32(b, base) != 1 {
                    Ok(segs)
                } else if le32(b, base + 16) == 0 && le32(b, base + 20) == 0 {
                    Ok(segs)
                } else if le32(b, base + 4) + le32(b, base + 16) > b.len() {
                    Err("ELF load segment exceeds file length"@)
                } else {
                    Ok(segs.push(load_segment(b, base)))
                }
            },
        }
    }
}

/// An error among the first `k` program headers is the error of the first `n >= k`.
proof fn lemma_elf_error_sticks(b: Seq<u8>, phoff: int, es: int, k: nat, n: nat)
    requires
        k <= n,
        elf_segments(b, phoff, es, k) is Err,
    ensures
        elf_segments(b, phoff, es, n) == elf_segments(b, phoff, es, k),
    decreases n - k,
{
    if k < n {
        lemma_elf_error_sticks(b, phoff, es, k, (n - 1) as nat);
    }
}

/// The segments of an ELF32 little-endian file, or the message of the error.
pub open spec fn spec_parse_elf32(b: Seq<u8>) -> Result<Seq<(u64, Seq<u8>)>, Seq<char>> {
    if b.len() < 52 {
        Err("ELF file is too small"@)
    } else if !has_elf_magic(b) {
        Err("invalid ELF magic"@)
    } else if b[4] != 1 {
        Err("only ELF32 is supported"@)
    } else if b[5] != 1 {
        Err("only little-endian ELF is supported"@)
    } else if le16(b, 42) < 32 {
        Err("unexpected ELF program header size"@)
    } else {
        match elf_segments(b, le32(b, 28) as int, le16(b, 42) as int, le16(b, 44) as nat) {
            Err(e) => Err(e),
            Ok(segs) => if segs.len() == 0 {
                Err("ELF file has no PT_LOAD segment"@)
            } else {
                Ok(segs)
            },
        }
    }
}

/// Tells an ELF file (by magic, or by the extension "elf") from a raw binary.
pub fn detect_format(extension: Option<&str>, bytes: &[u8]) -> (r: FirmwareFormat)
    ensures
        r == spec_detect_format(
            match extension {
                Some(e) => Some(e@),
                None => None,
            },
            bytes@,
        ),
{
    if bytes.len() >= 4 && bytes[0] == 0x7F && bytes[1] == 0x45 && bytes[2] == 0x4C && bytes[3] == 0x46 {
        return FirmwareFormat::Elf;
    }
    proof {
        reveal_strlit("elf");
    }
    match extension {
        Some(e) => if crate::text::str_eq(e, "elf") {
            FirmwareFormat::Elf
        } else {
            FirmwareFormat::Bin
        },
        None => FirmwareFormat::Bin,
    }
}

fn read_u16(bytes: &[u8], offset: usize) -> (r: u16)
    requires
        offset + 2 <= bytes@.len(),
    ensures
        r == le16(bytes@, offset as int),
{
    (bytes[offset] as u16) | ((bytes[offset + 1] as u16) << 8)
}

fn read_u32(bytes: &[u8], offset: usize) -> (r: u32)
    requires
        offset + 4 <= bytes@.len(),
    ensures
        r == le32(bytes@, offset as int),
{
    (bytes[offset] as u32) | ((bytes[offset + 1] as u32) << 8) | ((bytes[offset + 2] as u32) << 16) | ((
    bytes[offset + 3] as u32) << 24)
}

/// The bytes of a loadable segment: `filesz` bytes from `offset`, padded with zeros to
/// `memsz`.
fn segment_bytes(bytes: &[u8], offset: usize, filesz: usize, memsz: usize) -> (r: Vec<u8>)
    requires
        offset + filesz <= bytes@.len(),
    ensures
        r@ == bytes@.subrange(offset as int, offset + filesz) + Seq::new(
            ((if memsz > filesz { memsz } else { filesz }) - filesz) as nat,
            |i: int| 0u8,
        ),
{
    let total = if memsz > filesz { memsz } else { filesz };
    let len = bytes.len();
    let mut data: Vec<u8> = Vec::new();
    let mut i: usize = 0;
    while i < filesz
        invariant
            i <= filesz,
            len == bytes@.len(),
            offset + filesz <= len,
            data@ == bytes@.subrange(offset as int, offset + i),
        decreases filesz - i,
    {
        data.push(bytes[offset + i]);
        i = i + 1;
        assert(data@ =~= bytes@.subrange(offset as int, offset + i));
    }
    let ghost head = data@;
    while i < total
        invariant
            filesz <= i <= total,
            head == bytes@.subrange(offset as int, offset + filesz),
            data@ == head + Seq::new((i - filesz) as nat, |k: int| 0u8),
        decreases total - i,
    {
        data.push(0);
        i = i + 1;
        assert(data@ =~= head + Seq::new((i - filesz) as nat, |k: int| 0u8));
    }
    data
}

/// Reads the loadable (PT_LOAD) segments of a 32-bit little-endian ELF file.
pub fn parse_elf32(bytes: &[u8]) -> (r: Result<FirmwareImage, String>)
    ensures
        match spec_parse_elf32(bytes@) {
            Ok(segs) => r matches Ok(img) && img.spec_segments().map_values(|s: FirmwareSegment| segment_view(s))
                == segs,
            Err(m) => r matches Err(e) && e@ == m,
        },
{
    let n = bytes.len();
    if n < 52 {
        return Err("ELF file is too small".to_owned());
    }
    if !(bytes[0] == 0x7F && bytes[1] == 0x45 && bytes[2] == 0x4C && bytes[3] == 0x46) {
        return Err("invalid ELF magic".to_owned());
    }
    if bytes[4] != 1 {
        return Err("only ELF32 is supported".to_owned());
    }
    if bytes[5] != 1 {
        return Err("only little-endian ELF is supported".to_owned());
    }
    let phoff = read_u32(bytes, 28) as u64;
    let es = read_u16(bytes, 42) as u64;
    let count = read_u16(bytes, 44) as u64;
    if es < 32 {
        return Err("unexpected ELF program header size".to_owned());
    }
    let mut segments: Vec<FirmwareSegment> = Vec::new();
    let mut index: u64 = 0;
    assert(segments@.map_values(|s: FirmwareSegment| segment_view(s)) =~= Seq::empty());
    while index < count
        invariant
            n == bytes@.len(),
            n >= 52,
            has_elf_magic(bytes@),
            bytes@[4] == 1,
            bytes@[5] == 1,
            es >= 32,
            phoff == le32(bytes@, 28),
            es == le16(bytes@, 42),
            count == le16(bytes@, 44),
            index <= count,
            count <= 0xFFFF,
            es <= 0xFFFF,
            phoff <= 0xFFFF_FFFF,
            elf_segments(bytes@, phoff as int, es as int, index as nat) == Ok::<Seq<(u64, Seq<u8>)>, Seq<char>>(
                segments@.map_values(|s: FirmwareSegment| segment_view(s)),
            ),
        decreases count - index,
    {
        let ghost segs0 = segments@.map_values(|s: FirmwareSegment| segment_view(s));
        assert(index * es <= 0xFFFF * 0xFFFF) by (nonlinear_arith)
            requires
                index <= 0xFFFF,
                es <= 0xFFFF,
        ;
        let base = phoff + index * es;
        if base + 32 > n as u64 {
            proof {
                assert(elf_segments(bytes@, phoff as int, es as int, (index + 1) as nat) == Err::<
                    Seq<(u64, Seq<u8>)>,
                    Seq<char>,
                >("ELF program header exceeds file length"@));
                lemma_elf_error_sticks(bytes@, phoff as int, es as int, (index + 1) as nat, count as nat);
            }
            return Err("ELF program header exceeds file length".to_owned());
        }
        let b = base as usize;
        let p_type = read_u32(bytes, b);
        if p_type == 1 {
            let file_offset = read_u32(bytes, b + 4) as u64;
            let physical_address = read_u32(bytes, b + 12) as u64;
            let file_size = read_u32(bytes, b + 16) as u64;
            let memory_size = read_u32(bytes, b + 20) as u64;
            if !(file_size == 0 && memory_size == 0) {
                if file_offset + file_size > n as u64 {
                    proof {
                        assert(elf_segments(bytes@, phoff as int, es as int, (index + 1) as nat) == Err::<
                            Seq<(u64, Seq<u8>)>,
                            Seq<char>,
                        >("ELF load segment exceeds file length"@));
                        lemma_elf_error_sticks(bytes@, phoff as int, es as int, (index + 1) as nat, count as nat);
                    }
                    return Err("ELF load segment exceeds file length".to_owned());
                }
                let data = segment_bytes(bytes, file_offset as usize, file_size as usize, memory_size as usize);
                segments.push(FirmwareSegment { load_address: physical_address, bytes: data });
                assert(segments@.map_values(|s: FirmwareSegment| segment_view(s)) =~= segs0.push(
                    load_segment(bytes@, base as int),
                ));
            }
        }
        index = index + 1;
    }
    if segments.len() == 0 {
        return Err("ELF file has no PT_LOAD segment".to_owned());
    }
    let img = FirmwareImage::from_segments(segments);
    Ok(img)
}

/// The image of firmware file contents: a raw binary becomes one segment at
/// `default_bin_address`; an ELF file gives its loadable segments.
pub open spec fn spec_load(ext: Option<Seq<char>>, b: Seq<u8>, default_bin_address: u64) -> Result<Seq<(u64, Seq<u8>)>, Seq<char>> {
    match spec_detect_format(ext, b) {
        FirmwareFormat::Bin => Ok(seq![(default_bin_address, b)]),
        FirmwareFormat::Elf => spec_parse_elf32(b),
    }
}

impl FirmwareLoader {
    /// The image of a firmware file whose extension is `extension` and whose contents are
    /// `bytes`.
    pub fn load_bytes(extension: Option<&str>, bytes: &[u8], default_bin_address: u64) -> (r: Result<FirmwareImage, String>)
        ensures
            match spec_load(
                match extension {
                    Some(e) => Some(e@),
                    None => None,
                },
                bytes@,
                default_bin_address,
            ) {
                Ok(segs) => r matches Ok(img) && img.spec_segments().map_values(|s: FirmwareSegment| segment_view(s))
                    == segs,
                Err(m) => r matches Err(e) && e@ == m,
            },
    {
        match detect_format(extension, bytes) {
            FirmwareFormat::Bin => {
                let img = FirmwareImage::from_bin(default_bin_address, bytes);
                assert(img.spec_segments().map_values(|s: FirmwareSegment| segment_view(s)) =~= seq![
                    (default_bin_address, bytes@),
                ]);
                Ok(img)
            },
            FirmwareFormat::Elf => parse_elf32(bytes),
        }
    }
}

} // verus!
