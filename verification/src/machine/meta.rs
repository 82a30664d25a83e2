//! What the machine knows of each peripheral register byte, and the events it records.
use crate::machine::systick::SystickReg;
use crate::text::{contains_ignore_ascii_case, contains_ignore_case, eq_ignore_ascii_case, eq_ignore_case, has_prefix, starts_with};
use std::collections::HashMap;
use vstd::prelude::*;

verus! {

broadcast use vstd::std_specs::hash::group_hash_axioms;

/// A byte written to a serial port's data register.
#[derive(Debug, Clone, PartialEq, Eq)]
pub struct SerialEvent {
    pub peripheral: String,
    pub byte: u8,
}

/// A write to a known peripheral register.
#[derive(Debug, Clone, PartialEq, Eq)]
pub struct MmioWriteEvent {
    pub peripheral: String,
    pub register: String,
    pub addr: u64,
    pub width: u8,
    pub value: u32,
}

/// One byte of a peripheral register: whose it is, which byte, its special behaviour and,
/// for SPI and GPIO registers, the address of the paired status or output register.
#[derive(Debug, Clone)]
pub struct RegisterMeta {
    pub peripheral: String,
    pub register: String,
    pub byte_offset: u8,
    pub flags: u16,
    pub systick: Option<SystickReg>,
    pub paired_addr: u64,
}

pub const META_USART_STATUS: u16 = 0x1;

pub const META_USART_DATA: u16 = 0x2;

pub const META_SPI_STATUS: u16 = 0x4;

pub const META_SPI_DATA: u16 = 0x8;

pub const META_RCC_CONTROL: u16 = 0x10;

pub const META_TIMER_STATUS: u16 = 0x20;

pub const META_GPIO_BSRR: u16 = 0x40;

pub const META_RCC_CFGR: u16 = 0x80;

pub fn is_usart_status(meta: &RegisterMeta) -> (r: bool)
    ensures
        r == (meta.flags & META_USART_STATUS != 0),
{
    (meta.flags & META_USART_STATUS) != 0
}

pub fn is_usart_data(meta: &RegisterMeta) -> (r: bool)
    ensures
        r == (meta.flags & META_USART_DATA != 0),
{
    (meta.flags & META_USART_DATA) != 0
}

pub fn is_spi_status(meta: &RegisterMeta) -> (r: bool)
    ensures
        r == (meta.flags & META_SPI_STATUS != 0),
{
    (meta.flags & META_SPI_STATUS) != 0
}

pub fn is_spi_data(meta: &RegisterMeta) -> (r: bool)
    ensures
        r == (meta.flags & META_SPI_DATA != 0),
{
    (meta.flags & META_SPI_DATA) != 0
}

pub fn is_rcc_control(meta: &RegisterMeta) -> (r: bool)
    ensures
        r == (meta.flags & META_RCC_CONTROL != 0),
{
    (meta.flags & META_RCC_CONTROL) != 0
}

pub fn is_timer_status(meta: &RegisterMeta) -> (r: bool)
    ensures
        r == (meta.flags & META_TIMER_STATUS != 0),
{
    (meta.flags & META_TIMER_STATUS) != 0
}

pub fn is_gpio_bsrr(meta: &RegisterMeta) -> (r: bool)
    ensures
        r == (meta.flags & META_GPIO_BSRR != 0),
{
    (meta.flags & META_GPIO_BSRR) != 0
}

pub fn is_rcc_cfgr(meta: &RegisterMeta) -> (r: bool)
    ensures
        r == (meta.flags & META_RCC_CFGR != 0),
{
    (meta.flags & META_RCC_CFGR) != 0
}

/// The special behaviours of register `register` of peripheral `peripheral`: USART SR/DR,
/// SPI SR/DR, RCC CR/CFGR, TIM SR and GPIO BSRR (register names in any ASCII case;
/// peripheral names by prefix, except RCC).
pub open spec fn spec_meta_flags(peripheral: Seq<char>, register: Seq<char>) -> u16 {
    let usart = has_prefix(peripheral, "USART"@);
    let spi = has_prefix(peripheral, "SPI"@);
    let rcc = eq_ignore_case(peripheral, "RCC"@);
    let tim = has_prefix(peripheral, "TIM"@);
    let gpio = has_prefix(peripheral, "GPIO"@);
    let sr = eq_ignore_case(register, "SR"@);
    let dr = eq_ignore_case(register, "DR"@);
    (if usart && sr { META_USART_STATUS } else { 0 }) | (if usart && dr { META_USART_DATA } else { 0 })
        | (if spi && sr { META_SPI_STATUS } else { 0 }) | (if spi && dr { META_SPI_DATA } else { 0 })
        | (if rcc && eq_ignore_case(register, "CR"@) { META_RCC_CONTROL } else { 0 }) | (if rcc
        && eq_ignore_case(register, "CFGR"@) { META_RCC_CFGR } else { 0 }) | (if tim && sr {
        META_TIMER_STATUS
    } else { 0 }) | (if gpio && eq_ignore_case(register, "BSRR"@) { META_GPIO_BSRR } else { 0 })
}

pub fn classify_meta_flags(peripheral: &str, register: &str) -> (r: u16)
    ensures
        r == spec_meta_flags(peripheral@, register@),
{
    let usart = starts_with(peripheral, "USART");
    let spi = starts_with(peripheral, "SPI");
    let rcc = eq_ignore_ascii_case(peripheral, "RCC");
    let tim = starts_with(peripheral, "TIM");
    let gpio = starts_with(peripheral, "GPIO");
    let sr = eq_ignore_ascii_case(register, "SR");
    let dr = eq_ignore_ascii_case(register, "DR");
    let cr = eq_ignore_ascii_case(register, "CR");
    let cfgr = eq_ignore_ascii_case(register, "CFGR");
    let bsrr = eq_ignore_ascii_case(register, "BSRR");
    let mut flags = 0u16;
    if usart && sr {
        flags = flags | META_USART_STATUS;
    }
    if usart && dr {
        flags = flags | META_USART_DATA;
    }
    if spi && sr {
        flags = flags | META_SPI_STATUS;
    }
    if spi && dr {
        flags = flags | META_SPI_DATA;
    }
    if rcc && cr {
        flags = flags | META_RCC_CONTROL;
    }
    if rcc && cfgr {
        flags = flags | META_RCC_CFGR;
    }
    if tim && sr {
        flags = flags | META_TIMER_STATUS;
    }
    if gpio && bsrr {
        flags = flags | META_GPIO_BSRR;
    }
    assert(forall|x: u16| #![trigger x | 0u16] (x | 0u16) == x) by (bit_vector);
    assert(forall|x: u16| #![trigger 0u16 | x] (0u16 | x) == x) by (bit_vector);
    flags
}

/// The SysTick register a register of `peripheral` is, if any: the peripheral is STK, SYST
/// or has SYST in its name; CTRL, *LOAD*, VAL or *CVR*, *CALIB* (all in any ASCII case).
pub open spec fn spec_systick_reg(peripheral: Seq<char>, register: Seq<char>) -> Option<SystickReg> {
    if !(eq_ignore_case(peripheral, "STK"@) || eq_ignore_case(peripheral, "SYST"@) || contains_ignore_case(
        peripheral,
        "SYST"@,
    )) {
        None
    } else if eq_ignore_case(register, "CTRL"@) {
        Some(SystickReg::Ctrl)
    } else if contains_ignore_case(register, "LOAD"@) {
        Some(SystickReg::Load)
    } else if eq_ignore_case(register, "VAL"@) || contains_ignore_case(register, "CVR"@) {
        Some(SystickReg::Val)
    } else if contains_ignore_case(register, "CALIB"@) {
        Some(SystickReg::Calib)
    } else {
        None
    }
}

pub fn classify_systick_reg(peripheral: &str, register: &str) -> (r: Option<SystickReg>)
    ensures
        r == spec_systick_reg(peripheral@, register@),
{
    if !(eq_ignore_ascii_case(peripheral, "STK") || eq_ignore_ascii_case(peripheral, "SYST")
        || contains_ignore_ascii_case(peripheral, "SYST")) {
        return None;
    }
    if eq_ignore_ascii_case(register, "CTRL") {
        return Some(SystickReg::Ctrl);
    }
    if contains_ignore_ascii_case(register, "LOAD") {
        return Some(SystickReg::Load);
    }
    if eq_ignore_ascii_case(register, "VAL") || contains_ignore_ascii_case(register, "CVR") {
        return Some(SystickReg::Val);
    }
    if contains_ignore_ascii_case(register, "CALIB") {
        return Some(SystickReg::Calib);
    }
    None
}

/// `e` records a write of `value` (`width` bytes) at `addr`, a byte of the register `meta`.
pub open spec fn event_of(e: MmioWriteEvent, meta: RegisterMeta, addr: u64, width: u8, value: u32) -> bool {
    &&& e.peripheral@ == meta.peripheral@
    &&& e.register@ == meta.register@
    &&& e.addr == addr
    &&& e.width == width
    &&& e.value == value
}

/// `after` is `before` with the write recorded when `addr` belongs to a known register.
pub open spec fn logged(
    before: Seq<MmioWriteEvent>,
    after: Seq<MmioWriteEvent>,
    meta: Map<u64, RegisterMeta>,
    addr: u64,
    width: u8,
    value: u32,
) -> bool {
    if meta.contains_key(addr) {
        after.len() == before.len() + 1 && after.drop_last() == before && event_of(
            after.last(),
            meta[addr],
            addr,
            width,
            value,
        )
    } else {
        after == before
    }
}

/// The event for a write at `addr`, when a known register is there.
pub fn decode_mmio_write(register_meta: &HashMap<u64, RegisterMeta>, addr: u64, width: u8, value: u32) -> (r: Option<
    MmioWriteEvent,
>)
    ensures
        r is Some <==> register_meta@.contains_key(addr),
        r matches Some(e) ==> event_of(e, register_meta@[addr], addr, width, value),
{
    match register_meta.get(&addr) {
        Some(meta) => Some(
            MmioWriteEvent {
                peripheral: meta.peripheral.clone(),
                register: meta.register.clone(),
                addr,
                width,
                value,
            },
        ),
        None => None,
    }
}

/// Records the write at `addr` in `log` when a known register is there.
pub fn log_write(
    log: &mut Vec<MmioWriteEvent>,
    register_meta: &HashMap<u64, RegisterMeta>,
    addr: u64,
    width: u8,
    value: u32,
)
    ensures
        logged(old(log)@, final(log)@, register_meta@, addr, width, value),
{
    if let Some(event) = decode_mmio_write(register_meta, addr, width, value) {
        let ghost before = log@;
        log.push(event);
        assert(log@.drop_last() =~= before);
    }
}

} // verus!
