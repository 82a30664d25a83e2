//! The byte map behind memory-mapped registers, and the register arithmetic done on it.
use std::collections::HashMap;
use vstd::prelude::*;

verus! {

broadcast use vstd::std_specs::hash::group_hash_axioms;

/// The byte at `a`, 0 where nothing was ever stored.
pub open spec fn mbyte(m: Map<u64, u8>, a: u64) -> u8 {
    if m.contains_key(a) {
        m[a]
    } else {
        0
    }
}

/// The little-endian word at `a` (addresses wrap around).
pub open spec fn mword(m: Map<u64, u8>, a: u64) -> u32 {
    (mbyte(m, a) as u32) | ((mbyte(m, a.wrapping_add(1)) as u32) << 8) | ((mbyte(m, a.wrapping_add(2)) as u32) << 16)
        | ((mbyte(m, a.wrapping_add(3)) as u32) << 24)
}

/// `m` with the word `v` stored little-endian at `a`.
pub open spec fn put_word(m: Map<u64, u8>, a: u64, v: u32) -> Map<u64, u8> {
    m.insert(a, v as u8).insert(a.wrapping_add(1), (v >> 8) as u8).insert(a.wrapping_add(2), (v >> 16) as u8).insert(
        a.wrapping_add(3),
        (v >> 24) as u8,
    )
}

/// The byte at `a`, 0 when absent.
pub fn get_byte(mmio: &HashMap<u64, u8>, a: u64) -> (r: u8)
    ensures
        r == mbyte(mmio@, a),
{
    match mmio.get(&a) {
        Some(v) => *v,
        None => 0,
    }
}

/// The little-endian word at `addr`.
pub fn read_mmio_u32(mmio: &HashMap<u64, u8>, addr: u64) -> (r: u32)
    ensures
        r == mword(mmio@, addr),
{
    let b0 = get_byte(mmio, addr) as u32;
    let b1 = get_byte(mmio, addr.wrapping_add(1)) as u32;
    let b2 = get_byte(mmio, addr.wrapping_add(2)) as u32;
    let b3 = get_byte(mmio, addr.wrapping_add(3)) as u32;
    b0 | (b1 << 8) | (b2 << 16) | (b3 << 24)
}

/// Stores `value` little-endian at `addr`.
pub fn write_mmio_u32(mmio: &mut HashMap<u64, u8>, addr: u64, value: u32)
    ensures
        final(mmio)@ == put_word(old(mmio)@, addr, value),
{
    mmio.insert(addr, value as u8);
    mmio.insert(addr.wrapping_add(1), (value >> 8) as u8);
    mmio.insert(addr.wrapping_add(2), (value >> 16) as u8);
    mmio.insert(addr.wrapping_add(3), (value >> 24) as u8);
}

/// Peripheral space: 0x4000_0000..0x6000_0000 and the private peripheral bus
/// 0xE000_0000..0xF000_0000.
pub open spec fn spec_is_peripheral_addr(addr: u64) -> bool {
    (0x4000_0000 <= addr < 0x6000_0000) || (0xE000_0000 <= addr < 0xF000_0000)
}

pub fn is_peripheral_addr(addr: u64) -> (r: bool)
    ensures
        r == spec_is_peripheral_addr(addr),
{
    (0x4000_0000 <= addr && addr < 0x6000_0000) || (0xE000_0000 <= addr && addr < 0xF000_0000)
}

/// A byte of the NVIC interrupt-set-enable registers ISER0/ISER1.
pub fn is_nvic_enable_addr(addr: u64) -> (r: bool)
    ensures
        r == (0xE000_E100 <= addr <= 0xE000_E107),
{
    0xE000_E100 <= addr && addr <= 0xE000_E107
}

/// The word address of ISER0 or ISER1.
pub fn is_nvic_enable_word_addr(addr: u64) -> (r: bool)
    ensures
        r == (addr == 0xE000_E100 || addr == 0xE000_E104),
{
    addr == 0xE000_E100 || addr == 0xE000_E104
}

/// Some interrupt is enabled in ISER0 or ISER1.
pub open spec fn spec_nvic_any_enabled(m: Map<u64, u8>) -> bool {
    mword(m, 0xE000_E100) != 0 || mword(m, 0xE000_E104) != 0
}

pub fn nvic_any_enabled(mmio: &HashMap<u64, u8>) -> (r: bool)
    ensures
        r == spec_nvic_any_enabled(mmio@),
{
    read_mmio_u32(mmio, 0xE000_E100) != 0 || read_mmio_u32(mmio, 0xE000_E104) != 0
}

/// Address of the ISPR word holding the pending bit of `irq`.
pub open spec fn ispr_addr(irq: u8) -> u64 {
    (0xE000_E200 + (irq / 32) as u64 * 4) as u64
}

/// Whether `irq` is pending in the NVIC.
pub open spec fn spec_nvic_pending(m: Map<u64, u8>, irq: u8) -> bool {
    mword(m, ispr_addr(irq)) & (1u32 << (irq % 32)) != 0
}

pub fn nvic_pending_read(mmio: &HashMap<u64, u8>, irq: u8) -> (r: bool)
    ensures
        r == spec_nvic_pending(mmio@, irq),
{
    let reg = 0xE000_E200u64 + ((irq / 32) as u64 * 4);
    let bit = irq % 32;
    (read_mmio_u32(mmio, reg) & (1u32 << bit)) != 0
}

/// `m` with the pending bit of `irq` set or cleared.
pub open spec fn with_pending(m: Map<u64, u8>, irq: u8, pending: bool) -> Map<u64, u8> {
    let w = mword(m, ispr_addr(irq));
    let bit = 1u32 << (irq % 32);
    put_word(m, ispr_addr(irq), if pending { w | bit } else { w & !bit })
}

pub fn nvic_pending_write(mmio: &mut HashMap<u64, u8>, irq: u8, pending: bool)
    ensures
        final(mmio)@ == with_pending(old(mmio)@, irq, pending),
{
    let reg = 0xE000_E200u64 + ((irq / 32) as u64 * 4);
    let bit = irq % 32;
    let mut value = read_mmio_u32(mmio, reg);
    if pending {
        value = value | (1u32 << bit);
    } else {
        value = value & !(1u32 << bit);
    }
    write_mmio_u32(mmio, reg, value);
}

/// SPI status as firmware sees it: TXE set, BSY and the error flags OVR/MODF/CRCERR clear,
/// the rest from the stored SR (none when `sr_addr` is 0).
pub open spec fn spec_spi_sr(m: Map<u64, u8>, sr_addr: u64) -> u32 {
    let sr = if sr_addr == 0 { 0 } else { mword(m, sr_addr) };
    ((sr | 0x2) & !0x80u32) & !0x70u32
}

pub fn spi_sr_sanitized(mmio: &HashMap<u64, u8>, sr_addr: u64) -> (r: u32)
    ensures
        r == spec_spi_sr(mmio@, sr_addr),
{
    let mut sr: u32 = if sr_addr == 0 { 0 } else { read_mmio_u32(mmio, sr_addr) };
    sr = sr | (1 << 1);
    sr = sr & !(1 << 7);
    sr = sr & !((1 << 6) | (1 << 5) | (1 << 4));
    assert(((1u32 << 6) | (1u32 << 5) | (1u32 << 4)) == 0x70u32 && (1u32 << 7) == 0x80u32 && (1u32 << 1) == 2u32) by (bit_vector);
    sr
}

/// SR after a data write: TXE and RXNE set, BSY and errors clear.
pub open spec fn spi_written(m: Map<u64, u8>, sr_addr: u64) -> Map<u64, u8> {
    if sr_addr == 0 {
        m
    } else {
        put_word(m, sr_addr, ((mword(m, sr_addr) | 0x3) & !0x80u32) & !0x70u32)
    }
}

pub fn spi_mark_data_written(mmio: &mut HashMap<u64, u8>, sr_addr: u64)
    ensures
        final(mmio)@ == spi_written(old(mmio)@, sr_addr),
{
    if sr_addr != 0 {
        let mut sr = read_mmio_u32(mmio, sr_addr);
        sr = sr | ((1 << 1) | (1 << 0));
        sr = sr & !(1 << 7);
        sr = sr & !((1 << 6) | (1 << 5) | (1 << 4));
        assert(((1u32 << 6) | (1u32 << 5) | (1u32 << 4)) == 0x70u32 && (1u32 << 7) == 0x80u32 && ((1u32 << 1) | (1u32 << 0)) == 3u32) by (bit_vector);
        write_mmio_u32(mmio, sr_addr, sr);
    }
}

/// SR after a data read: RXNE clear, TXE set, BSY and errors clear.
pub open spec fn spi_consumed(m: Map<u64, u8>, sr_addr: u64) -> Map<u64, u8> {
    if sr_addr == 0 {
        m
    } else {
        put_word(m, sr_addr, (((mword(m, sr_addr) & !1u32) | 0x2) & !0x80u32) & !0x70u32)
    }
}

pub fn spi_mark_data_consumed(mmio: &mut HashMap<u64, u8>, sr_addr: u64)
    ensures
        final(mmio)@ == spi_consumed(old(mmio)@, sr_addr),
{
    if sr_addr != 0 {
        let mut sr = read_mmio_u32(mmio, sr_addr);
        sr = sr & !(1 << 0);
        sr = sr | (1 << 1);
        sr = sr & !(1 << 7);
        sr = sr & !((1 << 6) | (1 << 5) | (1 << 4));
        assert(((1u32 << 6) | (1u32 << 5) | (1u32 << 4)) == 0x70u32 && (1u32 << 7) == 0x80u32 && (1u32 << 1) == 2u32 && (1u32 << 0) == 1u32) by (bit_vector);
        write_mmio_u32(mmio, sr_addr, sr);
    }
}

/// RCC CR with every enabled oscillator (HSI bit 0, HSE bit 16, PLL bit 24) reported ready
/// (bits 1, 17, 25) and every disabled one not ready.
pub open spec fn spec_rcc_ready(value: u32) -> u32 {
    let v1 = (value & !0x2u32) | ((value & 1) << 1);
    let v2 = (v1 & !0x2_0000u32) | (((v1 >> 16) & 1) << 17);
    (v2 & !0x200_0000u32) | (((v2 >> 24) & 1) << 25)
}

pub fn apply_rcc_ready_flags(value: u32) -> (r: u32)
    ensures
        r == spec_rcc_ready(value),
{
    let v1 = (value & !(1 << 1)) | (((value >> 0) & 1) << 1);
    let v2 = (v1 & !(1 << 17)) | (((v1 >> 16) & 1) << 17);
    let v3 = (v2 & !(1 << 25)) | (((v2 >> 24) & 1) << 25);
    assert(v3 == spec_rcc_ready(value)) by (bit_vector)
        requires
            v1 == (value & !(1u32 << 1u32)) | (((value >> 0u32) & 1u32) << 1u32),
            v2 == (v1 & !(1u32 << 17u32)) | (((v1 >> 16u32) & 1u32) << 17u32),
            v3 == (v2 & !(1u32 << 25u32)) | (((v2 >> 24u32) & 1u32) << 25u32),
    ;
    v3
}

/// RCC CFGR with the switch status SWS (bits 2-3) following the switch SW (bits 0-1).
pub open spec fn spec_rcc_cfgr(value: u32) -> u32 {
    (value & !0xCu32) | ((value & 0x3) << 2)
}

pub fn apply_rcc_cfgr_flags(value: u32) -> (r: u32)
    ensures
        r == spec_rcc_cfgr(value),
{
    let sw = value & 0x3;
    let sws = sw << 2;
    assert((0x3u32 << 2) == 0xCu32) by (bit_vector);
    (value & !(0x3 << 2)) | sws
}

} // verus!
