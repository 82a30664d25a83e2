//! Firmware images and byte-addressed memory blocks.
use crate::text::{hex_message, hex_message3, spec_hex_message, spec_hex_message3};
use vstd::prelude::*;

verus! {

/// Bytes to be placed at `load_address`.
#[derive(Debug, Clone, PartialEq, Eq)]
pub struct FirmwareSegment {
    pub load_address: u64,
    pub bytes: Vec<u8>,
}

/// A copy of `bytes`.
pub fn copy_bytes(bytes: &[u8]) -> (v: Vec<u8>)
    ensures
        v@ == bytes@,
{
    let mut v: Vec<u8> = Vec::new();
    let mut i: usize = 0;
    while i < bytes.len()
        invariant
            i <= bytes@.len(),
            v@ == bytes@.subrange(0, i as int),
        decreases bytes@.len() - i,
    {
        v.push(bytes[i]);
        i = i + 1;
        assert(v@ =~= bytes@.subrange(0, i as int));
    }
    assert(bytes@.subrange(0, bytes@.len() as int) =~= bytes@);
    v
}

/// A firmware image: the segments to load, in order.
#[derive(Debug, Clone, PartialEq, Eq)]
pub struct FirmwareImage {
    segments: Vec<FirmwareSegment>,
}

impl FirmwareImage {
    pub closed spec fn spec_segments(&self) -> Seq<FirmwareSegment> {
        self.segments@
    }

    /// An image of one segment holding `bytes` at `load_address`.
    pub fn from_bin(load_address: u64, bytes: &[u8]) -> (r: Self)
        ensures
            r.spec_segments().len() == 1,
            r.spec_segments()[0].load_address == load_address,
            r.spec_segments()[0].bytes@ == bytes@,
    {
        let mut segments: Vec<FirmwareSegment> = Vec::new();
        segments.push(FirmwareSegment { load_address, bytes: copy_bytes(bytes) });
        FirmwareImage { segments }
    }

    /// An image of the given segments.
    pub fn from_segments(segments: Vec<FirmwareSegment>) -> (r: Self)
        ensures
            r.spec_segments() == segments@,
    {
        FirmwareImage { segments }
    }

    pub fn segments(&self) -> (r: &[FirmwareSegment])
        ensures
            r@ == self.spec_segments(),
    {
        self.segments.as_slice()
    }
}

/// A contiguous block of memory at `base`, read-only (flash) or writable (RAM).
#[derive(Debug, Clone, PartialEq, Eq)]
pub struct MemoryBlock {
    base: u64,
    data: Vec<u8>,
    writable: bool,
}

/// Little-endian value of the bytes `d[i]`, `d[i + 1]`.
pub open spec fn le16(d: Seq<u8>, i: int) -> u16 {
    (d[i] as u16) | ((d[i + 1] as u16) << 8)
}

/// Little-endian value of the bytes `d[i]` .. `d[i + 3]`.
pub open spec fn le32(d: Seq<u8>, i: int) -> u32 {
    (d[i] as u32) | ((d[i + 1] as u32) << 8) | ((d[i + 2] as u32) << 16) | ((d[i + 3] as u32) << 24)
}

impl MemoryBlock {

    pub closed spec fn spec_base(&self) -> u64 {
        self.base
    }

    pub closed spec fn spec_data(&self) -> Seq<u8> {
        self.data@
    }

    pub closed spec fn spec_writable(&self) -> bool {
        self.writable
    }

    pub open spec fn spec_end(&self) -> int {
        self.spec_base() + self.spec_data().len()
    }

    pub open spec fn spec_contains(&self, addr: u64) -> bool {
        self.spec_base() <= addr < self.spec_end()
    }

    /// The byte at `addr`, when the block holds it.
    pub open spec fn byte_at(&self, addr: u64) -> Option<u8> {
        if self.spec_contains(addr) {
            Some(self.spec_data()[addr - self.spec_base()])
        } else {
            None
        }
    }

    /// A zero-filled block of `len` bytes at `base`.
    pub fn new(base: u64, len: usize, writable: bool) -> (r: Self)
        requires
            base + len <= u64::MAX,
        ensures
            r.spec_base() == base,
            r.spec_data() == Seq::new(len as nat, |i: int| 0u8),
            r.spec_writable() == writable,
    {
        let mut data: Vec<u8> = Vec::new();
        let mut i: usize = 0;
        while i < len
            invariant
                i <= len,
                data@ == Seq::new(i as nat, |j: int| 0u8),
            decreases len - i,
        {
            data.push(0);
            i = i + 1;
            assert(data@ =~= Seq::new(i as nat, |j: int| 0u8));
        }
        MemoryBlock { base, data, writable }
    }

    pub fn base(&self) -> (r: u64)
        ensures
            r == self.spec_base(),
    {
        self.base
    }

    pub fn end(&self) -> (r: u64)
        requires
            self.spec_end() <= u64::MAX,
        ensures
            r == self.spec_end(),
    {
        self.base + self.data.len() as u64
    }

    pub fn len(&self) -> (r: usize)
        ensures
            r == self.spec_data().len(),
    {
        self.data.len()
    }

    pub fn writable(&self) -> (r: bool)
        ensures
            r == self.spec_writable(),
    {
        self.writable
    }

    pub fn contains(&self, addr: u64) -> (r: bool)
        ensures
            r == self.spec_contains(addr),
    {
        addr >= self.base && addr - self.base < self.data.len() as u64
    }

    pub fn read8(&self, addr: u64) -> (r: Option<u8>)
        ensures
            r == self.byte_at(addr),
    {
        let n = self.data.len();
        if !self.contains(addr) {
            return None;
        }
        let offset = (addr - self.base) as usize;
        Some(self.data[offset])
    }

    /// The half-word at `addr`, when both of its bytes lie in the block.
    pub fn read16(&self, addr: u64) -> (r: Option<u16>)
        ensures
            r == (if self.spec_contains(addr) && addr + 1 < self.spec_end() {
                Some(le16(self.spec_data(), addr - self.spec_base()))
            } else {
                None
            }),
    {
        let n = self.data.len();
        if !self.contains(addr) {
            return None;
        }
        let o = (addr - self.base) as usize;
        if n - o <= 1 {
            return None;
        }
        Some((self.data[o] as u16) | ((self.data[o + 1] as u16) << 8))
    }

    /// The word at `addr`, when all four of its bytes lie in the block.
    pub fn read32(&self, addr: u64) -> (r: Option<u32>)
        ensures
            r == (if self.spec_contains(addr) && addr + 3 < self.spec_end() {
                Some(le32(self.spec_data(), addr - self.spec_base()))
            } else {
                None
            }),
    {
        let n = self.data.len();
        if !self.contains(addr) {
            return None;
        }
        let o = (addr - self.base) as usize;
        if n - o <= 3 {
            return None;
        }
        Some((self.data[o] as u32) | ((self.data[o + 1] as u32) << 8) | ((self.data[o + 2] as u32) << 16)
            | ((self.data[o + 3] as u32) << 24))
    }

    /// Stores `value` at `addr`: refused for a read-only block and outside the block.
    pub fn write8(&mut self, addr: u64, value: u8) -> (r: Result<(), String>)
        ensures
            final(self).spec_base() == old(self).spec_base(),
            final(self).spec_writable() == old(self).spec_writable(),
            r is Ok <==> old(self).spec_writable() && old(self).spec_contains(addr),
            r is Ok ==> final(self).spec_data() == old(self).spec_data().update(addr - old(self).spec_base(), value),
            r is Err ==> final(self).spec_data() == old(self).spec_data(),
            r matches Err(e) ==> e@ == (if !old(self).spec_writable() {
                spec_hex_message("write to read-only memory "@, addr, 8, ""@)
            } else {
                spec_hex_message("address "@, addr, 8, " is outside memory block"@)
            }),
    {
        if !self.writable {
            return Err(hex_message("write to read-only memory ", addr, 8, ""));
        }
        let offset = self.offset_of(addr)?;
        self.data.set(offset, value);
        Ok(())
    }

    /// Stores the half-word `value` (little-endian) at `addr`.
    pub fn write16(&mut self, addr: u64, value: u16) -> (r: Result<(), String>)
        ensures
            final(self).spec_base() == old(self).spec_base(),
            final(self).spec_writable() == old(self).spec_writable(),
            r is Ok <==> old(self).spec_writable() && old(self).spec_contains(addr) && addr + 1 < old(self).spec_end(),
            r is Ok ==> final(self).spec_data() == old(self).spec_data().update(addr - old(self).spec_base(), value as u8).update(
                addr - old(self).spec_base() + 1,
                (value >> 8) as u8,
            ),
            r is Err ==> final(self).spec_data() == old(self).spec_data(),
            r matches Err(e) ==> e@ == (if !old(self).spec_writable() {
                spec_hex_message("write to read-only memory "@, addr, 8, ""@)
            } else {
                spec_hex_message("address "@, addr, 8, " is outside memory block"@)
            }),
    {
        if !self.writable {
            return Err(hex_message("write to read-only memory ", addr, 8, ""));
        }
        let o = self.offset_of(addr)?;
        if self.data.len() - o <= 1 {
            return Err(hex_message("address ", addr, 8, " is outside memory block"));
        }
        self.data.set(o, value as u8);
        self.data.set(o + 1, (value >> 8) as u8);
        Ok(())
    }

    /// Stores the word `value` (little-endian) at `addr`.
    pub fn write32(&mut self, addr: u64, value: u32) -> (r: Result<(), String>)
        ensures
            final(self).spec_base() == old(self).spec_base(),
            final(self).spec_writable() == old(self).spec_writable(),
            r is Ok <==> old(self).spec_writable() && old(self).spec_contains(addr) && addr + 3 < old(self).spec_end(),
            r is Ok ==> final(self).spec_data() == old(self).spec_data().update(addr - old(self).spec_base(), value as u8).update(
                addr - old(self).spec_base() + 1,
                (value >> 8) as u8,
            ).update(addr - old(self).spec_base() + 2, (value >> 16) as u8).update(
                addr - old(self).spec_base() + 3,
                (value >> 24) as u8,
            ),
            r is Err ==> final(self).spec_data() == old(self).spec_data(),
            r matches Err(e) ==> e@ == (if !old(self).spec_writable() {
                spec_hex_message("write to read-only memory "@, addr, 8, ""@)
            } else {
                spec_hex_message("address "@, addr, 8, " is outside memory block"@)
            }),
    {
        if !self.writable {
            return Err(hex_message("write to read-only memory ", addr, 8, ""));
        }
        let o = self.offset_of(addr)?;
        if self.data.len() - o <= 3 {
            return Err(hex_message("address ", addr, 8, " is outside memory block"));
        }
        self.data.set(o, value as u8);
        self.data.set(o + 1, (value >> 8) as u8);
        self.data.set(o + 2, (value >> 16) as u8);
        self.data.set(o + 3, (value >> 24) as u8);
        Ok(())
    }

    /// Copies `bytes` into the block from `addr` on, whether or not the block is writable
    /// (this is how flash is programmed).
    pub fn load_bytes(&mut self, addr: u64, bytes: &[u8]) -> (r: Result<(), String>)
        ensures
            final(self).spec_base() == old(self).spec_base(),
            final(self).spec_writable() == old(self).spec_writable(),
            r is Ok <==> old(self).spec_contains(addr) && addr + bytes@.len() <= old(self).spec_end(),
            r is Ok ==> final(self).spec_data() == old(self).spec_data().subrange(0, addr - old(self).spec_base())
                + bytes@ + old(self).spec_data().subrange(
                addr - old(self).spec_base() + bytes@.len(),
                old(self).spec_data().len() as int,
            ),
            r is Err ==> final(self).spec_data() == old(self).spec_data(),
            r matches Err(e) ==> e@ == (if !old(self).spec_contains(addr) {
                spec_hex_message("address "@, addr, 8, " is outside memory block"@)
            } else {
                spec_hex_message3(
                    "segment end "@,
                    addr.wrapping_add(bytes@.len() as u64) as u64,
                    " exceeds memory block "@,
                    old(self).spec_base(),
                    ".."@,
                    old(self).spec_base().wrapping_add(old(self).spec_data().len() as u64) as u64,
                )
            }),
    {
        let start = self.offset_of(addr)?;
        if bytes.len() > self.data.len() - start {
            return Err(hex_message3(
                "segment end ",
                addr.wrapping_add(bytes.len() as u64),
                " exceeds memory block ",
                self.base,
                "..",
                self.base.wrapping_add(self.data.len() as u64),
            ));
        }
        let ghost d0 = self.data@;
        let total = self.data.len();
        let mut i: usize = 0;
        while i < bytes.len()
            invariant
                self.base == old(self).spec_base(),
                self.writable == old(self).spec_writable(),
                d0 == old(self).spec_data(),
                start + bytes@.len() <= d0.len(),
                d0.len() <= usize::MAX,
                self.data@.len() == d0.len(),
                i <= bytes@.len(),
                forall|j: int| 0 <= j < start ==> self.data@[j] == d0[j],
                forall|j: int| start <= j < start + i ==> self.data@[j] == bytes@[j - start],
                forall|j: int| start + i <= j < d0.len() ==> self.data@[j] == d0[j],
            decreases bytes@.len() - i,
        {
            self.data.set(start + i, bytes[i]);
            i = i + 1;
        }
        assert(self.data@ =~= d0.subrange(0, start as int) + bytes@ + d0.subrange(start + bytes@.len(), d0.len() as int));
        Ok(())
    }

    fn offset_of(&self, addr: u64) -> (r: Result<usize, String>)
        ensures
            r is Ok <==> self.spec_contains(addr),
            r matches Ok(o) ==> o == addr - self.spec_base() && o < self.spec_data().len(),
            r matches Err(e) ==> e@ == spec_hex_message("address "@, addr, 8, " is outside memory block"@),
    {
        let n = self.data.len();
        if !self.contains(addr) {
            return Err(hex_message("address ", addr, 8, " is outside memory block"));
        }
        Ok((addr - self.base) as usize)
    }
}

} // verus!
