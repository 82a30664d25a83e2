//! The machine's system bus: flash and RAM blocks, the flash alias, peripheral registers
//! with their special behaviours, the SysTick timer, the NVIC enable summary and the
//! peripheral bit-band alias.
use crate::bus::traits::{SystemBus, ok_value};
use crate::machine::meta::{RegisterMeta, SerialEvent, MmioWriteEvent, is_usart_status, is_usart_data, is_spi_status, is_spi_data, is_rcc_control, is_rcc_cfgr, is_timer_status, is_gpio_bsrr, logged, log_write, META_USART_STATUS, META_USART_DATA, META_SPI_STATUS, META_SPI_DATA, META_RCC_CONTROL, META_RCC_CFGR, META_TIMER_STATUS, META_GPIO_BSRR};
use crate::machine::mmio::{mbyte, mword, put_word, get_byte, read_mmio_u32, write_mmio_u32, spec_is_peripheral_addr, is_peripheral_addr, is_nvic_enable_addr, is_nvic_enable_word_addr, spec_nvic_any_enabled, nvic_any_enabled, spec_spi_sr, spi_sr_sanitized, spi_written, spi_mark_data_written, spi_consumed, spi_mark_data_consumed, spec_rcc_ready, apply_rcc_ready_flags, spec_rcc_cfgr, apply_rcc_cfgr_flags};
use crate::machine::systick::{SystickReg, SystickState, spec_byte_of, spec_reg_value, spec_write32, spec_merge_byte, spec_stored};
use crate::memory::{MemoryBlock, le16, le32};
use crate::text::hex_message;
use std::collections::HashMap;
use vstd::prelude::*;

verus! {

broadcast use vstd::std_specs::hash::group_hash_axioms;

/// Everything a CPU access can reach.
#[derive(Debug)]
pub struct MachineBus {
    pub memory: Vec<MemoryBlock>,
    pub flash_base: u64,
    pub flash_alias_base: Option<u64>,
    pub periph_bb_base: Option<u64>,
    pub periph_bb_alias_start: Option<u64>,
    pub periph_bb_alias_end: Option<u64>,
    pub mmio: HashMap<u64, u8>,
    pub register_meta: HashMap<u64, RegisterMeta>,
    pub serial_output: Vec<SerialEvent>,
    pub mmio_writes: Vec<MmioWriteEvent>,
    pub systick: SystickState,
    pub nvic_any_enabled: bool,
}

/// The first of `blocks` from index `i` on that holds the byte at `addr`, read.
pub open spec fn find_read8(blocks: Seq<MemoryBlock>, addr: u64, i: int) -> Option<u8>
    decreases blocks.len() - i,
{
    if i < 0 || i >= blocks.len() {
        None
    } else if blocks[i].byte_at(addr) is Some {
        blocks[i].byte_at(addr)
    } else {
        find_read8(blocks, addr, i + 1)
    }
}

/// Half-word of a block at `addr`, when both bytes are in it.
pub open spec fn block_read16(b: MemoryBlock, addr: u64) -> Option<u16> {
    if b.spec_contains(addr) && addr + 1 < b.spec_end() {
        Some(le16(b.spec_data(), addr - b.spec_base()))
    } else {
        None
    }
}

/// Word of a block at `addr`, when all four bytes are in it.
pub open spec fn block_read32(b: MemoryBlock, addr: u64) -> Option<u32> {
    if b.spec_contains(addr) && addr + 3 < b.spec_end() {
        Some(le32(b.spec_data(), addr - b.spec_base()))
    } else {
        None
    }
}

pub open spec fn find_read16(blocks: Seq<MemoryBlock>, addr: u64, i: int) -> Option<u16>
    decreases blocks.len() - i,
{
    if i < 0 || i >= blocks.len() {
        None
    } else if block_read16(blocks[i], addr) is Some {
        block_read16(blocks[i], addr)
    } else {
        find_read16(blocks, addr, i + 1)
    }
}

pub open spec fn find_read32(blocks: Seq<MemoryBlock>, addr: u64, i: int) -> Option<u32>
    decreases blocks.len() - i,
{
    if i < 0 || i >= blocks.len() {
        None
    } else if block_read32(blocks[i], addr) is Some {
        block_read32(blocks[i], addr)
    } else {
        find_read32(blocks, addr, i + 1)
    }
}

/// Address in flash that the alias address `addr` stands for, through block `b`, when `addr`
/// lies in the alias window of that (read-only) block with `extra` more bytes after it.
pub open spec fn alias_target(b: MemoryBlock, flash_base: u64, alias: u64, addr: u64, extra: int) -> Option<u64> {
    if !b.spec_writable() && alias <= addr && addr + extra < alias + b.spec_data().len() && flash_base + (addr - alias)
        <= u64::MAX {
        Some((flash_base + (addr - alias)) as u64)
    } else {
        None
    }
}

/// Byte read through the flash alias: the first read-only block whose alias window holds
/// `addr` and whose flash holds the target.
pub open spec fn alias_read8(blocks: Seq<MemoryBlock>, flash_base: u64, alias: u64, addr: u64, i: int) -> Option<u8>
    decreases blocks.len() - i,
{
    if i < 0 || i >= blocks.len() {
        None
    } else {
        let c = match alias_target(blocks[i], flash_base, alias, addr, 0) {
            Some(t) => blocks[i].byte_at(t),
            None => None,
        };
        if c is Some {
            c
        } else {
            alias_read8(blocks, flash_base, alias, addr, i + 1)
        }
    }
}

pub open spec fn alias_read16(blocks: Seq<MemoryBlock>, flash_base: u64, alias: u64, addr: u64, i: int) -> Option<u16>
    decreases blocks.len() - i,
{
    if i < 0 || i >= blocks.len() {
        None
    } else {
        let c = match alias_target(blocks[i], flash_base, alias, addr, 1) {
            Some(t) => block_read16(blocks[i], t),
            None => None,
        };
        if c is Some {
            c
        } else {
            alias_read16(blocks, flash_base, alias, addr, i + 1)
        }
    }
}

pub open spec fn alias_read32(blocks: Seq<MemoryBlock>, flash_base: u64, alias: u64, addr: u64, i: int) -> Option<u32>
    decreases blocks.len() - i,
{
    if i < 0 || i >= blocks.len() {
        None
    } else {
        let c = match alias_target(blocks[i], flash_base, alias, addr, 3) {
            Some(t) => block_read32(blocks[i], t),
            None => None,
        };
        if c is Some {
            c
        } else {
            alias_read32(blocks, flash_base, alias, addr, i + 1)
        }
    }
}

/// Index of the first block holding `addr`, or -1.
pub open spec fn find_block(blocks: Seq<MemoryBlock>, addr: u64, i: int) -> int
    decreases blocks.len() - i,
{
    if i < 0 || i >= blocks.len() {
        -1
    } else if blocks[i].spec_contains(addr) {
        i
    } else {
        find_block(blocks, addr, i + 1)
    }
}

pub proof fn lemma_find_block_range(blocks: Seq<MemoryBlock>, addr: u64, i: int)
    requires
        0 <= i,
    ensures
        find_block(blocks, addr, i) == -1 || (i <= find_block(blocks, addr, i) < blocks.len()
            && blocks[find_block(blocks, addr, i)].spec_contains(addr)),
    decreases blocks.len() - i,
{
    if i < blocks.len() && !blocks[i].spec_contains(addr) {
        lemma_find_block_range(blocks, addr, i + 1);
    }
}

/// `b2` equals `b` except possibly in the fields flagged `true`.
pub open spec fn keeps(
    b: MachineBus,
    b2: MachineBus,
    memory: bool,
    mmio: bool,
    serial: bool,
    writes: bool,
    tick: bool,
    nvic: bool,
) -> bool {
    &&& memory || b2.memory == b.memory
    &&& mmio || b2.mmio == b.mmio
    &&& serial || b2.serial_output == b.serial_output
    &&& writes || b2.mmio_writes == b.mmio_writes
    &&& tick || b2.systick == b.systick
    &&& nvic || b2.nvic_any_enabled == b.nvic_any_enabled
    &&& b2.flash_base == b.flash_base
    &&& b2.flash_alias_base == b.flash_alias_base
    &&& b2.periph_bb_base == b.periph_bb_base
    &&& b2.periph_bb_alias_start == b.periph_bb_alias_start
    &&& b2.periph_bb_alias_end == b.periph_bb_alias_end
    &&& b2.register_meta == b.register_meta
}

/// NVIC enable summary after a byte store at `addr` into `m`.
pub open spec fn nvic_after8(m: Map<u64, u8>, addr: u64, before: bool) -> bool {
    if 0xE000_E100 <= addr <= 0xE000_E107 {
        spec_nvic_any_enabled(m)
    } else {
        before
    }
}

/// NVIC enable summary after a word store at `addr` into `m`.
pub open spec fn nvic_after32(m: Map<u64, u8>, addr: u64, before: bool) -> bool {
    if addr == 0xE000_E100 || addr == 0xE000_E104 {
        spec_nvic_any_enabled(m)
    } else {
        before
    }
}

/// Byte read of a peripheral register (or other non-memory address).
pub open spec fn mmio_read8(b: MachineBus, addr: u64, r: Option<u8>, b2: MachineBus) -> bool {
    let metas = b.register_meta@;
    let known = metas.contains_key(addr);
    let m = metas[addr];
    if known && m.systick is Some {
        r == Some(spec_byte_of(spec_reg_value(b.systick, m.systick->0), m.byte_offset)) && b2 == b
    } else if known && m.flags & META_USART_STATUS != 0 {
        r == Some(if m.byte_offset == 0 { 0xC0u8 } else { 0u8 }) && b2 == b
    } else if known && m.flags & META_SPI_STATUS != 0 {
        r == Some(spec_byte_of(spec_spi_sr(b.mmio@, m.paired_addr), m.byte_offset)) && b2 == b
    } else if known && m.flags & META_SPI_DATA != 0 && m.byte_offset == 0 {
        &&& r == Some(mbyte(b.mmio@, addr))
        &&& b2.mmio@ == spi_consumed(b.mmio@, m.paired_addr)
        &&& keeps(b, b2, false, true, false, false, false, false)
    } else if b.mmio@.contains_key(addr) {
        r == Some(b.mmio@[addr]) && b2 == b
    } else if spec_is_peripheral_addr(addr) {
        r == Some(0u8) && b2 == b
    } else {
        r is None && b2 == b
    }
}

/// A byte read anywhere: flash and RAM (and the flash alias) first, then peripherals.
pub open spec fn bus_read8(b: MachineBus, addr: u64, r: Option<u8>, b2: MachineBus) -> bool {
    match b.mem8(addr) {
        Some(v) => r == Some(v) && b2 == b,
        None => mmio_read8(b, addr, r, b2),
    }
}

/// Byte store into block `blk` giving `blk2`: refused for a read-only block.
pub open spec fn block_stored8(blk: MemoryBlock, addr: u64, value: u8, ok: bool, blk2: MemoryBlock) -> bool {
    &&& blk2.spec_base() == blk.spec_base()
    &&& blk2.spec_writable() == blk.spec_writable()
    &&& ok == blk.spec_writable()
    &&& blk2.spec_data() == if ok {
        blk.spec_data().update(addr - blk.spec_base(), value)
    } else {
        blk.spec_data()
    }
}

/// `b2`'s blocks are `b`'s with block `i` replaced by one that satisfies `f`.
pub open spec fn blocks_updated(b: MachineBus, b2: MachineBus, i: int) -> bool {
    &&& b2.memory@.len() == b.memory@.len()
    &&& forall|j: int| 0 <= j < b.memory@.len() && j != i ==> b2.memory@[j] == b.memory@[j]
    &&& keeps(b, b2, true, false, false, false, false, false)
}

/// Where a store to the peripheral bit-band alias `addr` lands: the byte and the bit.
pub open spec fn bitband_target(b: MachineBus, addr: u64) -> Option<(u64, u8)> {
    match (b.periph_bb_base, b.periph_bb_alias_start, b.periph_bb_alias_end) {
        (Some(base), Some(start), Some(end)) => if start <= addr < end && base + (addr - start) / 32 <= u64::MAX {
            Some(((base + (addr - start) / 32) as u64, (((addr - start) % 32) / 4) as u8))
        } else {
            None
        },
        _ => None,
    }
}

/// A store of `value` through the bit-band alias: bit `bit` of the byte at `target` takes
/// bit 0 of `value`, and the write is recorded.
pub open spec fn bitband_stored(b: MachineBus, target: u64, bit: u8, value: u32, b2: MachineBus) -> bool {
    let current = mbyte(b.mmio@, target);
    let mask = 1u8 << bit;
    let updated = if value & 1 == 0 { current & !mask } else { current | mask };
    &&& b2.mmio@ == b.mmio@.insert(target, updated)
    &&& logged(b.mmio_writes@, b2.mmio_writes@, b.register_meta@, target, 1, updated as u32)
    &&& keeps(b, b2, false, true, false, true, false, false)
}

/// Byte store to a register with special behaviour; `handled` is false (and nothing changes)
/// for other addresses.
pub open spec fn special8(b: MachineBus, addr: u64, value: u8, handled: bool, b2: MachineBus) -> bool {
    let metas = b.register_meta@;
    let known = metas.contains_key(addr);
    let m = metas[addr];
    if known && m.systick is Some {
        &&& handled
        &&& b2.systick == spec_write32(
            b.systick,
            m.systick->0,
            spec_merge_byte(spec_stored(b.systick, m.systick->0), m.byte_offset, value),
        )
        &&& b2.mmio@ == b.mmio@.insert(addr, value)
        &&& logged(b.mmio_writes@, b2.mmio_writes@, metas, addr, 1, value as u32)
        &&& keeps(b, b2, false, true, false, true, true, false)
    } else if known && m.flags & META_USART_DATA != 0 && m.byte_offset == 0 {
        &&& handled
        &&& b2.serial_output@.len() == b.serial_output@.len() + 1
        &&& b2.serial_output@.drop_last() == b.serial_output@
        &&& b2.serial_output@.last().peripheral@ == m.peripheral@
        &&& b2.serial_output@.last().byte == value
        &&& logged(b.mmio_writes@, b2.mmio_writes@, metas, addr, 1, value as u32)
        &&& b2.mmio@ == b.mmio@.insert(addr, value)
        &&& keeps(b, b2, false, true, true, true, false, false)
    } else if known && m.flags & META_SPI_DATA != 0 && m.byte_offset == 0 {
        &&& handled
        &&& b2.mmio@ == spi_written(b.mmio@.insert(addr, value), m.paired_addr)
        &&& logged(b.mmio_writes@, b2.mmio_writes@, metas, addr, 1, value as u32)
        &&& keeps(b, b2, false, true, false, true, false, false)
    } else {
        !handled && b2 == b
    }
}

/// A byte store anywhere except flash and RAM.
pub open spec fn mmio_write8(b: MachineBus, addr: u64, value: u8, ok: bool, b2: MachineBus) -> bool {
    let metas = b.register_meta@;
    let special = metas.contains_key(addr) && (metas[addr].systick is Some || ((metas[addr].flags & META_USART_DATA
        != 0 || metas[addr].flags & META_SPI_DATA != 0) && metas[addr].byte_offset == 0));
    if special {
        ok && exists|mid: MachineBus|
            #[trigger] special8(b, addr, value, true, mid) && b2 == MachineBus {
                nvic_any_enabled: nvic_after8(mid.mmio@, addr, mid.nvic_any_enabled),
                ..mid
            }
    } else if bitband_target(b, addr) is Some {
        let (target, bit) = bitband_target(b, addr)->0;
        ok && bitband_stored(b, target, bit, value as u32, b2)
    } else if spec_is_peripheral_addr(addr) {
        &&& ok
        &&& b2.mmio@ == b.mmio@.insert(addr, value)
        &&& logged(b.mmio_writes@, b2.mmio_writes@, metas, addr, 1, value as u32)
        &&& b2.nvic_any_enabled == nvic_after8(b2.mmio@, addr, b.nvic_any_enabled)
        &&& keeps(b, b2, false, true, false, true, false, true)
    } else {
        !ok && b2 == b
    }
}

/// A byte store anywhere: into the first RAM or flash block holding `addr` (below the
/// peripheral space; refused for flash), otherwise to the peripherals.
pub open spec fn bus_write8(b: MachineBus, addr: u64, value: u8, ok: bool, b2: MachineBus) -> bool {
    let i = find_block(b.memory@, addr, 0);
    if addr < 0x4000_0000 && i >= 0 {
        blocks_updated(b, b2, i) && block_stored8(b.memory@[i], addr, value, ok, b2.memory@[i])
    } else {
        mmio_write8(b, addr, value, ok, b2)
    }
}

/// A 16-bit read: flash and RAM first, otherwise two byte reads (low byte first).
pub open spec fn bus_read16(b: MachineBus, addr: u64, r: Option<u16>, b2: MachineBus) -> bool {
    match b.mem16(addr) {
        Some(v) => r == Some(v) && b2 == b,
        None => exists|r1: Option<u8>, mid: MachineBus|
            #[trigger] bus_read8(b, addr, r1, mid) && match r1 {
                None => r is None && b2 == mid,
                Some(lo) => exists|r2: Option<u8>|
                    #[trigger] bus_read8(mid, (addr + 1) as u64, r2, b2) && match r2 {
                        None => r is None,
                        Some(hi) => r == Some((lo as u16) | ((hi as u16) << 8)),
                    },
            },
    }
}

/// A 32-bit read of a peripheral register: SysTick registers (reading CTRL clears
/// COUNTFLAG), the USART status (always ready), the SPI status as firmware sees it, the SPI
/// data register (which marks the data consumed), then any peripheral word.
pub open spec fn mmio_read32(b: MachineBus, addr: u64, r: Option<u32>, b2: MachineBus) -> bool {
    let metas = b.register_meta@;
    let known = metas.contains_key(addr) && metas[addr].byte_offset == 0;
    let m = metas[addr];
    if known && m.systick is Some {
        &&& r == Some(spec_reg_value(b.systick, m.systick->0))
        &&& b2.systick == if m.systick->0 == SystickReg::Ctrl {
            SystickState { countflag: false, ..b.systick }
        } else {
            b.systick
        }
        &&& keeps(b, b2, false, false, false, false, true, false)
    } else if known && m.flags & META_USART_STATUS != 0 {
        r == Some(0xC0u32) && b2 == b
    } else if known && m.flags & META_SPI_STATUS != 0 {
        r == Some(spec_spi_sr(b.mmio@, m.paired_addr)) && b2 == b
    } else if known && m.flags & META_SPI_DATA != 0 {
        &&& r == Some(mword(b.mmio@, addr))
        &&& b2.mmio@ == spi_consumed(b.mmio@, m.paired_addr)
        &&& keeps(b, b2, false, true, false, false, false, false)
    } else if spec_is_peripheral_addr(addr) {
        r == Some(mword(b.mmio@, addr)) && b2 == b
    } else {
        r is None && b2 == b
    }
}

pub open spec fn bus_read32(b: MachineBus, addr: u64, r: Option<u32>, b2: MachineBus) -> bool {
    match b.mem32(addr) {
        Some(v) => r == Some(v) && b2 == b,
        None => mmio_read32(b, addr, r, b2),
    }
}

/// Half-word store into block `blk`: refused for a read-only block or past its end.
pub open spec fn block_stored16(blk: MemoryBlock, addr: u64, value: u16, ok: bool, blk2: MemoryBlock) -> bool {
    let o = addr - blk.spec_base();
    &&& blk2.spec_base() == blk.spec_base()
    &&& blk2.spec_writable() == blk.spec_writable()
    &&& ok == (blk.spec_writable() && addr + 1 < blk.spec_end())
    &&& blk2.spec_data() == if ok {
        blk.spec_data().update(o, value as u8).update(o + 1, (value >> 8) as u8)
    } else {
        blk.spec_data()
    }
}

/// Word store into block `blk`: refused for a read-only block or past its end.
pub open spec fn block_stored32(blk: MemoryBlock, addr: u64, value: u32, ok: bool, blk2: MemoryBlock) -> bool {
    let o = addr - blk.spec_base();
    &&& blk2.spec_base() == blk.spec_base()
    &&& blk2.spec_writable() == blk.spec_writable()
    &&& ok == (blk.spec_writable() && addr + 3 < blk.spec_end())
    &&& blk2.spec_data() == if ok {
        blk.spec_data().update(o, value as u8).update(o + 1, (value >> 8) as u8).update(o + 2, (value >> 16) as u8).update(
            o + 3,
            (value >> 24) as u8,
        )
    } else {
        blk.spec_data()
    }
}

/// A 16-bit store: into the first block holding `addr` (below the peripheral space),
/// otherwise two byte stores (low byte first).
pub open spec fn bus_write16(b: MachineBus, addr: u64, value: u16, ok: bool, b2: MachineBus) -> bool {
    let i = find_block(b.memory@, addr, 0);
    if addr < 0x4000_0000 && i >= 0 {
        blocks_updated(b, b2, i) && block_stored16(b.memory@[i], addr, value, ok, b2.memory@[i])
    } else {
        exists|ok1: bool, mid: MachineBus|
            #[trigger] bus_write8(b, addr, value as u8, ok1, mid) && if !ok1 {
                !ok && b2 == mid
            } else {
                bus_write8(mid, (addr + 1) as u64, (value >> 8) as u8, ok, b2)
            }
    }
}

/// GPIO BSRR: bits 0-15 set and bits 16-31 reset bits of the output register `odr`.
pub open spec fn bsrr_apply(odr: u32, value: u32) -> u32 {
    (odr | (value & 0xFFFF)) & !((value >> 16) & 0xFFFF)
}

/// Word store to a register with special behaviour; `handled` is false (and nothing changes)
/// for other addresses.
pub open spec fn special32(b: MachineBus, addr: u64, value: u32, handled: bool, b2: MachineBus) -> bool {
    let metas = b.register_meta@;
    let known = metas.contains_key(addr) && metas[addr].byte_offset == 0;
    let m = metas[addr];
    let mm = b.mmio@;
    let log0 = b.mmio_writes@;
    if known && m.systick is Some {
        &&& handled
        &&& b2.systick == spec_write32(b.systick, m.systick->0, value)
        &&& b2.mmio@ == put_word(mm, addr, value)
        &&& logged(log0, b2.mmio_writes@, metas, addr, 4, value)
        &&& keeps(b, b2, false, true, false, true, true, false)
    } else if known && m.flags & META_RCC_CONTROL != 0 {
        &&& handled
        &&& b2.mmio@ == put_word(mm, addr, spec_rcc_ready(value))
        &&& logged(log0, b2.mmio_writes@, metas, addr, 4, spec_rcc_ready(value))
        &&& keeps(b, b2, false, true, false, true, false, false)
    } else if known && m.flags & META_RCC_CFGR != 0 {
        &&& handled
        &&& b2.mmio@ == put_word(mm, addr, spec_rcc_cfgr(value))
        &&& logged(log0, b2.mmio_writes@, metas, addr, 4, spec_rcc_cfgr(value))
        &&& keeps(b, b2, false, true, false, true, false, false)
    } else if known && m.flags & META_TIMER_STATUS != 0 {
        let merged = mword(mm, addr) & value;
        &&& handled
        &&& b2.mmio@ == put_word(mm, addr, merged)
        &&& logged(log0, b2.mmio_writes@, metas, addr, 4, merged)
        &&& keeps(b, b2, false, true, false, true, false, false)
    } else if known && m.flags & META_GPIO_BSRR != 0 {
        let m1 = put_word(mm, addr, value);
        &&& handled
        &&& keeps(b, b2, false, true, false, true, false, false)
        &&& exists|log1: Seq<MmioWriteEvent>|
            #[trigger] logged(log0, log1, metas, addr, 4, value) && if m.paired_addr != 0 {
                let next = bsrr_apply(mword(m1, m.paired_addr), value);
                b2.mmio@ == put_word(m1, m.paired_addr, next) && logged(
                    log1,
                    b2.mmio_writes@,
                    metas,
                    m.paired_addr,
                    4,
                    next,
                )
            } else {
                b2.mmio@ == m1 && b2.mmio_writes@ == log1
            }
    } else if known && m.flags & META_USART_DATA != 0 {
        &&& handled
        &&& b2.serial_output@.len() == b.serial_output@.len() + 1
        &&& b2.serial_output@.drop_last() == b.serial_output@
        &&& b2.serial_output@.last().peripheral@ == m.peripheral@
        &&& b2.serial_output@.last().byte == (value & 0xFF) as u8
        &&& logged(log0, b2.mmio_writes@, metas, addr, 4, value)
        &&& b2.mmio@ == put_word(mm, addr, value)
        &&& keeps(b, b2, false, true, true, true, false, false)
    } else if known && m.flags & META_SPI_DATA != 0 {
        &&& handled
        &&& b2.mmio@ == spi_written(put_word(mm, addr, value), m.paired_addr)
        &&& logged(log0, b2.mmio_writes@, metas, addr, 4, value)
        &&& keeps(b, b2, false, true, false, true, false, false)
    } else {
        !handled && b2 == b
    }
}

/// Whether a word store at `addr` reaches a register with special behaviour.
pub open spec fn is_special32(b: MachineBus, addr: u64) -> bool {
    let metas = b.register_meta@;
    let f = metas[addr].flags;
    metas.contains_key(addr) && metas[addr].byte_offset == 0 && (metas[addr].systick is Some || f & META_RCC_CONTROL != 0
        || f & META_RCC_CFGR != 0 || f & META_TIMER_STATUS != 0 || f & META_GPIO_BSRR != 0 || f & META_USART_DATA != 0
        || f & META_SPI_DATA != 0)
}

/// A word store anywhere except the fast flash/RAM path: special registers, the bit-band
/// alias, any block holding `addr`, then plain peripheral words.
pub open spec fn mmio_write32(b: MachineBus, addr: u64, value: u32, ok: bool, b2: MachineBus) -> bool {
    let i = find_block(b.memory@, addr, 0);
    if is_special32(b, addr) {
        ok && exists|mid: MachineBus|
            #[trigger] special32(b, addr, value, true, mid) && b2 == MachineBus {
                nvic_any_enabled: nvic_after32(mid.mmio@, addr, mid.nvic_any_enabled),
                ..mid
            }
    } else if bitband_target(b, addr) is Some {
        let (target, bit) = bitband_target(b, addr)->0;
        ok && bitband_stored(b, target, bit, value, b2)
    } else if i >= 0 {
        blocks_updated(b, b2, i) && block_stored32(b.memory@[i], addr, value, ok, b2.memory@[i])
    } else if spec_is_peripheral_addr(addr) {
        &&& ok
        &&& b2.mmio@ == put_word(b.mmio@, addr, value)
        &&& logged(b.mmio_writes@, b2.mmio_writes@, b.register_meta@, addr, 4, value)
        &&& b2.nvic_any_enabled == nvic_after32(b2.mmio@, addr, b.nvic_any_enabled)
        &&& keeps(b, b2, false, true, false, true, false, true)
    } else {
        !ok && b2 == b
    }
}

pub open spec fn bus_write32(b: MachineBus, addr: u64, value: u32, ok: bool, b2: MachineBus) -> bool {
    let i = find_block(b.memory@, addr, 0);
    if addr < 0x4000_0000 && i >= 0 {
        blocks_updated(b, b2, i) && block_stored32(b.memory@[i], addr, value, ok, b2.memory@[i])
    } else {
        mmio_write32(b, addr, value, ok, b2)
    }
}

impl MachineBus {
    /// The byte that flash or RAM gives at `addr` (below the peripheral space), if any.
    pub open spec fn mem8(&self, addr: u64) -> Option<u8> {
        if addr < 0x4000_0000 {
            match find_read8(self.memory@, addr, 0) {
                Some(v) => Some(v),
                None => match self.flash_alias_base {
                    Some(alias) => alias_read8(self.memory@, self.flash_base, alias, addr, 0),
                    None => None,
                },
            }
        } else {
            None
        }
    }

    pub open spec fn mem16(&self, addr: u64) -> Option<u16> {
        if addr < 0x4000_0000 {
            match find_read16(self.memory@, addr, 0) {
                Some(v) => Some(v),
                None => match self.flash_alias_base {
                    Some(alias) => alias_read16(self.memory@, self.flash_base, alias, addr, 0),
                    None => None,
                },
            }
        } else {
            None
        }
    }

    pub open spec fn mem32(&self, addr: u64) -> Option<u32> {
        if addr < 0x4000_0000 {
            match find_read32(self.memory@, addr, 0) {
                Some(v) => Some(v),
                None => match self.flash_alias_base {
                    Some(alias) => alias_read32(self.memory@, self.flash_base, alias, addr, 0),
                    None => None,
                },
            }
        } else {
            None
        }
    }

    fn blocks_read8(&self, addr: u64) -> (r: Option<u8>)
        ensures
            r == find_read8(self.memory@, addr, 0),
    {
        let mut i: usize = 0;
        while i < self.memory.len()
            invariant
                i <= self.memory@.len(),
                find_read8(self.memory@, addr, 0) == find_read8(self.memory@, addr, i as int),
            decreases self.memory@.len() - i,
        {
            if let Some(v) = self.memory[i].read8(addr) {
                return Some(v);
            }
            i = i + 1;
        }
        None
    }

    fn blocks_read16(&self, addr: u64) -> (r: Option<u16>)
        ensures
            r == find_read16(self.memory@, addr, 0),
    {
        let mut i: usize = 0;
        while i < self.memory.len()
            invariant
                i <= self.memory@.len(),
                find_read16(self.memory@, addr, 0) == find_read16(self.memory@, addr, i as int),
            decreases self.memory@.len() - i,
        {
            if let Some(v) = self.memory[i].read16(addr) {
                return Some(v);
            }
            i = i + 1;
        }
        None
    }

    fn blocks_read32(&self, addr: u64) -> (r: Option<u32>)
        ensures
            r == find_read32(self.memory@, addr, 0),
    {
        let mut i: usize = 0;
        while i < self.memory.len()
            invariant
                i <= self.memory@.len(),
                find_read32(self.memory@, addr, 0) == find_read32(self.memory@, addr, i as int),
            decreases self.memory@.len() - i,
        {
            if let Some(v) = self.memory[i].read32(addr) {
                return Some(v);
            }
            i = i + 1;
        }
        None
    }

    /// Flash address behind alias address `addr` through block `i`, with `extra` more bytes.
    fn alias_target_of(&self, i: usize, alias: u64, addr: u64, extra: u64) -> (r: Option<u64>)
        requires
            i < self.memory@.len(),
            extra <= 3,
        ensures
            r == alias_target(self.memory@[i as int], self.flash_base, alias, addr, extra as int),
    {
        let block = &self.memory[i];
        if block.writable() || addr < alias {
            return None;
        }
        let off = addr - alias;
        let len = block.len() as u64;
        if off >= len || len - off <= extra {
            return None;
        }
        match self.flash_base.checked_add(off) {
            Some(t) => Some(t),
            None => None,
        }
    }

    fn flash_alias_read(&self, addr: u64) -> (r: Option<u8>)
        ensures
            r == match self.flash_alias_base {
                Some(alias) => alias_read8(self.memory@, self.flash_base, alias, addr, 0),
                None => None,
            },
    {
        let alias = match self.flash_alias_base {
            Some(a) => a,
            None => return None,
        };
        let mut i: usize = 0;
        while i < self.memory.len()
            invariant
                self.flash_alias_base == Some(alias),
                i <= self.memory@.len(),
                alias_read8(self.memory@, self.flash_base, alias, addr, 0) == alias_read8(self.memory@, self.flash_base, alias, addr, i as int),
            decreases self.memory@.len() - i,
        {
            if let Some(t) = self.alias_target_of(i, alias, addr, 0) {
                if let Some(v) = self.memory[i].read8(t) {
                    return Some(v);
                }
            }
            i = i + 1;
        }
        None
    }

    fn flash_alias_read16(&self, addr: u64) -> (r: Option<u16>)
        ensures
            r == match self.flash_alias_base {
                Some(alias) => alias_read16(self.memory@, self.flash_base, alias, addr, 0),
                None => None,
            },
    {
        let alias = match self.flash_alias_base {
            Some(a) => a,
            None => return None,
        };
        let mut i: usize = 0;
        while i < self.memory.len()
            invariant
                self.flash_alias_base == Some(alias),
                i <= self.memory@.len(),
                alias_read16(self.memory@, self.flash_base, alias, addr, 0) == alias_read16(self.memory@, self.flash_base, alias, addr, i as int),
            decreases self.memory@.len() - i,
        {
            if let Some(t) = self.alias_target_of(i, alias, addr, 1) {
                if let Some(v) = self.memory[i].read16(t) {
                    return Some(v);
                }
            }
            i = i + 1;
        }
        None
    }

    fn flash_alias_read32(&self, addr: u64) -> (r: Option<u32>)
        ensures
            r == match self.flash_alias_base {
                Some(alias) => alias_read32(self.memory@, self.flash_base, alias, addr, 0),
                None => None,
            },
    {
        let alias = match self.flash_alias_base {
            Some(a) => a,
            None => return None,
        };
        let mut i: usize = 0;
        while i < self.memory.len()
            invariant
                self.flash_alias_base == Some(alias),
                i <= self.memory@.len(),
                alias_read32(self.memory@, self.flash_base, alias, addr, 0) == alias_read32(self.memory@, self.flash_base, alias, addr, i as int),
            decreases self.memory@.len() - i,
        {
            if let Some(t) = self.alias_target_of(i, alias, addr, 3) {
                if let Some(v) = self.memory[i].read32(t) {
                    return Some(v);
                }
            }
            i = i + 1;
        }
        None
    }

    /// Index of the first block holding `addr`.
    fn find_block_index(&self, addr: u64) -> (r: Option<usize>)
        ensures
            match r {
                Some(i) => i as int == find_block(self.memory@, addr, 0) && i < self.memory@.len(),
                None => find_block(self.memory@, addr, 0) == -1,
            },
    {
        let mut i: usize = 0;
        while i < self.memory.len()
            invariant
                i <= self.memory@.len(),
                find_block(self.memory@, addr, 0) == find_block(self.memory@, addr, i as int),
            decreases self.memory@.len() - i,
        {
            if self.memory[i].contains(addr) {
                return Some(i);
            }
            i = i + 1;
        }
        None
    }
}

impl MachineBus {
    fn mmio_read8(&mut self, addr: u64) -> (r: Result<u8, String>)
        ensures
            mmio_read8(*old(self), addr, ok_value(r), *final(self)),
    {
        let found = match self.register_meta.get(&addr) {
            Some(meta) => Some((meta.systick, meta.flags, meta.byte_offset, meta.paired_addr)),
            None => None,
        };
        if let Some((systick, flags, off, paired)) = found {
            if let Some(reg) = systick {
                return Ok(self.systick.read8(reg, off));
            }
            if flags & META_USART_STATUS != 0 {
                return Ok(if off == 0 { 0xC0 } else { 0x00 });
            }
            if flags & META_SPI_STATUS != 0 {
                let sr = spi_sr_sanitized(&self.mmio, paired);
                let byte = if off < 4 { ((sr >> ((off as u32) * 8)) & 0xFF) as u8 } else { 0 };
                return Ok(byte);
            }
            if flags & META_SPI_DATA != 0 && off == 0 {
                let value = get_byte(&self.mmio, addr);
                spi_mark_data_consumed(&mut self.mmio, paired);
                return Ok(value);
            }
        }
        match self.mmio.get(&addr) {
            Some(v) => Ok(*v),
            None => if is_peripheral_addr(addr) {
                Ok(0)
            } else {
                Err(hex_message("read from unmapped address ", addr, 8, ""))
            },
        }
    }

    fn mmio_read32(&mut self, addr: u64) -> (r: Result<u32, String>)
        ensures
            mmio_read32(*old(self), addr, ok_value(r), *final(self)),
    {
        let found = match self.register_meta.get(&addr) {
            Some(meta) => Some((meta.systick, meta.flags, meta.byte_offset, meta.paired_addr)),
            None => None,
        };
        if let Some((systick, flags, off, paired)) = found {
            if off == 0 {
                if let Some(reg) = systick {
                    return Ok(self.systick.read32(reg));
                }
                if flags & META_USART_STATUS != 0 {
                    return Ok(0x0000_00C0);
                }
                if flags & META_SPI_STATUS != 0 {
                    return Ok(spi_sr_sanitized(&self.mmio, paired));
                }
                if flags & META_SPI_DATA != 0 {
                    let value = read_mmio_u32(&self.mmio, addr);
                    spi_mark_data_consumed(&mut self.mmio, paired);
                    return Ok(value);
                }
            }
        }
        if is_peripheral_addr(addr) {
            return Ok(read_mmio_u32(&self.mmio, addr));
        }
        Err(hex_message("read from unmapped address ", addr, 8, ""))
    }

    /// Store through the peripheral bit-band alias; `false` when `addr` is not in it.
    fn write_periph_bitband_alias(&mut self, addr: u64, value: u32) -> (r: bool)
        ensures
            match bitband_target(*old(self), addr) {
                Some((target, bit)) => r && bitband_stored(*old(self), target, bit, value, *final(self)),
                None => !r && *final(self) == *old(self),
            },
    {
        let (base, start, end) = match (self.periph_bb_base, self.periph_bb_alias_start, self.periph_bb_alias_end) {
            (Some(b), Some(s), Some(e)) => (b, s, e),
            _ => return false,
        };
        if !(start <= addr && addr < end) {
            return false;
        }
        let bit_word_offset = addr - start;
        let byte_offset = bit_word_offset / 32;
        let bit = ((bit_word_offset % 32) / 4) as u8;
        let target = match base.checked_add(byte_offset) {
            Some(t) => t,
            None => return false,
        };
        let current = get_byte(&self.mmio, target);
        let bit_mask = 1u8 << bit;
        let updated = if value & 1 == 0 { current & !bit_mask } else { current | bit_mask };
        self.mmio.insert(target, updated);
        log_write(&mut self.mmio_writes, &self.register_meta, target, 1, updated as u32);
        true
    }

    /// Byte store to a register with special behaviour; `false` for other addresses.
    fn write_special_mmio(&mut self, addr: u64, value: u8) -> (r: bool)
        ensures
            special8(*old(self), addr, value, r, *final(self)),
    {
        let found = match self.register_meta.get(&addr) {
            Some(meta) => Some((meta.systick, meta.flags, meta.byte_offset, meta.paired_addr, meta.peripheral.clone())),
            None => None,
        };
        if let Some((systick, flags, off, paired, peripheral)) = found {
            if let Some(reg) = systick {
                self.systick.write8(reg, off, value);
                self.mmio.insert(addr, value);
                log_write(&mut self.mmio_writes, &self.register_meta, addr, 1, value as u32);
                return true;
            }
            if flags & META_USART_DATA != 0 && off == 0 {
                let ghost before = self.serial_output@;
                self.serial_output.push(SerialEvent { peripheral, byte: value });
                assert(self.serial_output@.drop_last() =~= before);
                log_write(&mut self.mmio_writes, &self.register_meta, addr, 1, value as u32);
                self.mmio.insert(addr, value);
                return true;
            }
            if flags & META_SPI_DATA != 0 && off == 0 {
                self.mmio.insert(addr, value);
                log_write(&mut self.mmio_writes, &self.register_meta, addr, 1, value as u32);
                spi_mark_data_written(&mut self.mmio, paired);
                return true;
            }
        }
        false
    }

    fn mmio_write8(&mut self, addr: u64, value: u8) -> (r: Result<(), String>)
        ensures
            mmio_write8(*old(self), addr, value, r is Ok, *final(self)),
    {
        let ghost b0 = *self;
        if self.write_special_mmio(addr, value) {
            let ghost mid = *self;
            assert(special8(b0, addr, value, true, mid));
            if is_nvic_enable_addr(addr) {
                self.nvic_any_enabled = nvic_any_enabled(&self.mmio);
            }
            return Ok(());
        }
        if self.write_periph_bitband_alias(addr, value as u32) {
            return Ok(());
        }
        if is_peripheral_addr(addr) {
            self.mmio.insert(addr, value);
            log_write(&mut self.mmio_writes, &self.register_meta, addr, 1, value as u32);
            if is_nvic_enable_addr(addr) {
                self.nvic_any_enabled = nvic_any_enabled(&self.mmio);
            }
            Ok(())
        } else {
            Err(hex_message("write to unmapped address ", addr, 8, ""))
        }
    }
}

impl MachineBus {
    /// Word store to a register with special behaviour; `false` for other addresses.
    fn write_special_mmio_u32(&mut self, addr: u64, value: u32) -> (r: bool)
        ensures
            special32(*old(self), addr, value, r, *final(self)),
    {
        let found = match self.register_meta.get(&addr) {
            Some(meta) => Some((meta.systick, meta.flags, meta.byte_offset, meta.paired_addr, meta.peripheral.clone())),
            None => None,
        };
        let (systick, flags, off, paired, peripheral) = match found {
            Some(f) => f,
            None => return false,
        };
        if off != 0 {
            return false;
        }
        if let Some(reg) = systick {
            self.systick.write32(reg, value);
            write_mmio_u32(&mut self.mmio, addr, value);
            log_write(&mut self.mmio_writes, &self.register_meta, addr, 4, value);
            return true;
        }
        if flags & META_RCC_CONTROL != 0 {
            let v = apply_rcc_ready_flags(value);
            write_mmio_u32(&mut self.mmio, addr, v);
            log_write(&mut self.mmio_writes, &self.register_meta, addr, 4, v);
            return true;
        }
        if flags & META_RCC_CFGR != 0 {
            let v = apply_rcc_cfgr_flags(value);
            write_mmio_u32(&mut self.mmio, addr, v);
            log_write(&mut self.mmio_writes, &self.register_meta, addr, 4, v);
            return true;
        }
        if flags & META_TIMER_STATUS != 0 {
            let current = read_mmio_u32(&self.mmio, addr);
            let merged = current & value;
            write_mmio_u32(&mut self.mmio, addr, merged);
            log_write(&mut self.mmio_writes, &self.register_meta, addr, 4, merged);
            return true;
        }
        if flags & META_GPIO_BSRR != 0 {
            write_mmio_u32(&mut self.mmio, addr, value);
            let ghost log0 = self.mmio_writes@;
            log_write(&mut self.mmio_writes, &self.register_meta, addr, 4, value);
            let ghost log1 = self.mmio_writes@;
            assert(logged(log0, log1, self.register_meta@, addr, 4, value));
            if paired != 0 {
                let odr = read_mmio_u32(&self.mmio, paired);
                let set_mask = value & 0xFFFF;
                let reset_mask = (value >> 16) & 0xFFFF;
                let next = (odr | set_mask) & !reset_mask;
                write_mmio_u32(&mut self.mmio, paired, next);
                log_write(&mut self.mmio_writes, &self.register_meta, paired, 4, next);
            }
            return true;
        }
        if flags & META_USART_DATA != 0 {
            let ghost before = self.serial_output@;
            self.serial_output.push(SerialEvent { peripheral, byte: (value & 0xFF) as u8 });
            assert(self.serial_output@.drop_last() =~= before);
            log_write(&mut self.mmio_writes, &self.register_meta, addr, 4, value);
            write_mmio_u32(&mut self.mmio, addr, value);
            return true;
        }
        if flags & META_SPI_DATA != 0 {
            write_mmio_u32(&mut self.mmio, addr, value);
            log_write(&mut self.mmio_writes, &self.register_meta, addr, 4, value);
            spi_mark_data_written(&mut self.mmio, paired);
            return true;
        }
        false
    }

    /// Stores into block `i`.
    fn block_write8(&mut self, i: usize, addr: u64, value: u8) -> (r: Result<(), String>)
        requires
            i < old(self).memory@.len(),
        ensures
            blocks_updated(*old(self), *final(self), i as int),
            final(self).memory@[i as int].spec_base() == old(self).memory@[i as int].spec_base(),
            final(self).memory@[i as int].spec_writable() == old(self).memory@[i as int].spec_writable(),
            r is Ok <==> old(self).memory@[i as int].spec_writable() && old(self).memory@[i as int].spec_contains(addr),
            final(self).memory@[i as int].spec_data() == if r is Ok {
                old(self).memory@[i as int].spec_data().update(addr - old(self).memory@[i as int].spec_base(), value)
            } else {
                old(self).memory@[i as int].spec_data()
            },
    {
        self.memory[i].write8(addr, value)
    }
}

impl MachineBus {
    fn block_write16(&mut self, i: usize, addr: u64, value: u16) -> (r: Result<(), String>)
        requires
            i < old(self).memory@.len(),
            old(self).memory@[i as int].spec_contains(addr),
        ensures
            blocks_updated(*old(self), *final(self), i as int),
            block_stored16(old(self).memory@[i as int], addr, value, r is Ok, final(self).memory@[i as int]),
    {
        self.memory[i].write16(addr, value)
    }

    fn block_write32(&mut self, i: usize, addr: u64, value: u32) -> (r: Result<(), String>)
        requires
            i < old(self).memory@.len(),
            old(self).memory@[i as int].spec_contains(addr),
        ensures
            blocks_updated(*old(self), *final(self), i as int),
            block_stored32(old(self).memory@[i as int], addr, value, r is Ok, final(self).memory@[i as int]),
    {
        self.memory[i].write32(addr, value)
    }

    fn mmio_write32(&mut self, addr: u64, value: u32) -> (r: Result<(), String>)
        ensures
            mmio_write32(*old(self), addr, value, r is Ok, *final(self)),
    {
        let ghost b0 = *self;
        if self.write_special_mmio_u32(addr, value) {
            let ghost mid = *self;
            assert(special32(b0, addr, value, true, mid));
            if is_nvic_enable_word_addr(addr) {
                self.nvic_any_enabled = nvic_any_enabled(&self.mmio);
            }
            return Ok(());
        }
        if self.write_periph_bitband_alias(addr, value) {
            return Ok(());
        }
        if let Some(i) = self.find_block_index(addr) {
            proof { lemma_find_block_range(self.memory@, addr, 0); }
            return self.block_write32(i, addr, value);
        }
        if is_peripheral_addr(addr) {
            write_mmio_u32(&mut self.mmio, addr, value);
            log_write(&mut self.mmio_writes, &self.register_meta, addr, 4, value);
            if is_nvic_enable_word_addr(addr) {
                self.nvic_any_enabled = nvic_any_enabled(&self.mmio);
            }
            return Ok(());
        }
        Err(hex_message("write to unmapped address ", addr, 8, ""))
    }
}

impl MachineBus {
    fn bus_read8(&mut self, addr: u64) -> (r: Result<u8, String>)
        ensures
            bus_read8(*old(self), addr, ok_value(r), *final(self)),
    {
        if addr < 0x4000_0000 {
            if let Some(v) = self.blocks_read8(addr) {
                return Ok(v);
            }
            if let Some(v) = self.flash_alias_read(addr) {
                return Ok(v);
            }
        }
        self.mmio_read8(addr)
    }

    fn bus_write8(&mut self, addr: u64, value: u8) -> (r: Result<(), String>)
        ensures
            bus_write8(*old(self), addr, value, r is Ok, *final(self)),
    {
        if addr < 0x4000_0000 {
            if let Some(i) = self.find_block_index(addr) {
                proof { lemma_find_block_range(self.memory@, addr, 0); }
                return self.block_write8(i, addr, value);
            }
        }
        self.mmio_write8(addr, value)
    }
}

impl SystemBus for MachineBus {
    open spec fn read8_post(&self, addr: u64, r: Option<u8>, after: Self) -> bool {
        bus_read8(*self, addr, r, after)
    }

    open spec fn write8_post(&self, addr: u64, value: u8, ok: bool, after: Self) -> bool {
        bus_write8(*self, addr, value, ok, after)
    }

    open spec fn read16_post(&self, addr: u64, r: Option<u16>, after: Self) -> bool {
        bus_read16(*self, addr, r, after)
    }

    open spec fn read32_post(&self, addr: u64, r: Option<u32>, after: Self) -> bool {
        bus_read32(*self, addr, r, after)
    }

    open spec fn write16_post(&self, addr: u64, value: u16, ok: bool, after: Self) -> bool {
        bus_write16(*self, addr, value, ok, after)
    }

    open spec fn write32_post(&self, addr: u64, value: u32, ok: bool, after: Self) -> bool {
        bus_write32(*self, addr, value, ok, after)
    }

    fn read8(&mut self, addr: u64) -> (r: Result<u8, String>) {
        self.bus_read8(addr)
    }

    fn write8(&mut self, addr: u64, value: u8) -> (r: Result<(), String>) {
        self.bus_write8(addr, value)
    }

    fn read16(&mut self, addr: u64) -> (r: Result<u16, String>) {
        if addr < 0x4000_0000 {
            if let Some(v) = self.blocks_read16(addr) {
                return Ok(v);
            }
            if let Some(v) = self.flash_alias_read16(addr) {
                return Ok(v);
            }
        }
        let ghost b0 = *self;
        let lo = self.bus_read8(addr);
        let ghost mid = *self;
        assert(bus_read8(b0, addr, ok_value(lo), mid));
        let lo = match lo {
            Ok(v) => v,
            Err(e) => return Err(e),
        };
        let hi = self.bus_read8(addr + 1);
        assert(bus_read8(mid, (addr + 1) as u64, ok_value(hi), *self));
        let hi = match hi {
            Ok(v) => v,
            Err(e) => return Err(e),
        };
        Ok((lo as u16) | ((hi as u16) << 8))
    }

    fn read32(&mut self, addr: u64) -> (r: Result<u32, String>) {
        if addr < 0x4000_0000 {
            if let Some(v) = self.blocks_read32(addr) {
                return Ok(v);
            }
            if let Some(v) = self.flash_alias_read32(addr) {
                return Ok(v);
            }
        }
        self.mmio_read32(addr)
    }

    fn write16(&mut self, addr: u64, value: u16) -> (r: Result<(), String>) {
        if addr < 0x4000_0000 {
            if let Some(i) = self.find_block_index(addr) {
                proof { lemma_find_block_range(self.memory@, addr, 0); }
                return self.block_write16(i, addr, value);
            }
        }
        let ghost b0 = *self;
        let w = self.bus_write8(addr, (value & 0xFF) as u8);
        let ghost mid = *self;
        assert((value & 0xFF) as u8 == value as u8) by (bit_vector);
        assert(bus_write8(b0, addr, value as u8, w is Ok, mid));
        if w.is_err() {
            return w;
        }
        self.bus_write8(addr + 1, (value >> 8) as u8)
    }

    fn write32(&mut self, addr: u64, value: u32) -> (r: Result<(), String>) {
        if addr < 0x4000_0000 {
            if let Some(i) = self.find_block_index(addr) {
                proof { lemma_find_block_range(self.memory@, addr, 0); }
                return self.block_write32(i, addr, value);
            }
        }
        self.mmio_write32(addr, value)
    }
}

} // verus!
