//! RCC clock model: follows the STM32F1/F4 clock tree from the firmware's MMIO writes.
use crate::machine::meta::MmioWriteEvent;
use crate::text::{eq_ignore_ascii_case, eq_ignore_case, str_eq};
use vstd::prelude::*;

verus! {

/// The registers and clocks the model follows, as plain values.
#[derive(Debug, Clone, Copy, PartialEq, Eq, Structural)]
pub struct RccState {
    pub is_f407: bool,
    pub cr: u32,
    pub cfgr: u32,
    pub pllcfgr: u32,
    pub systick_load: u32,
    pub hsi_hz: u32,
    pub hse_hz: u32,
    pub core_clock_hz: u32,
}

/// `current` after a write of `value` of `width` bytes at `addr`: a byte or half-word write
/// replaces only its lane (by the address's low bits); a word write replaces all.
pub open spec fn merge_write(current: u32, width: u8, addr: u64, value: u32) -> u32 {
    if width == 1 {
        let shift = (((addr & 3) as u32) * 8) as u32;
        (current & !(0xFFu32 << shift)) | ((value & 0xFF) << shift)
    } else if width == 2 {
        let shift = ((((addr & 2) >> 1u64) as u32) * 16) as u32;
        (current & !(0xFFFFu32 << shift)) | ((value & 0xFFFF) << shift)
    } else {
        value
    }
}

/// `a * b`, or `u32::MAX` where the product does not fit.
pub open spec fn sat_mul32(a: u32, b: u32) -> u32 {
    if a * b > u32::MAX { u32::MAX } else { (a * b) as u32 }
}

/// `a * b`, or `u64::MAX` where the product does not fit.
pub open spec fn sat_mul64(a: u64, b: u64) -> u64 {
    if a * b > u64::MAX { u64::MAX } else { (a * b) as u64 }
}

/// AHB prescaler selected by CFGR.HPRE (bits 7:4).
pub open spec fn ahb_divisor(cfgr: u32) -> u32 {
    let v = (cfgr >> 4u32) & 0xF;
    if v <= 7 {
        1
    } else if v == 8 {
        2
    } else if v == 9 {
        4
    } else if v == 10 {
        8
    } else if v == 11 {
        16
    } else if v == 12 {
        64
    } else if v == 13 {
        128
    } else if v == 14 {
        256
    } else {
        512
    }
}

/// F1 PLL multiplication factor selected by CFGR.PLLMUL (bits 21:18).
pub open spec fn pll_mul_f1(cfgr: u32) -> u32 {
    let v = (cfgr >> 18u32) & 0xF;
    if v <= 13 { (v + 2) as u32 } else { 16 }
}

/// F1 PLL output: HSI/2 or HSE (halved by PLLXTPRE), times the multiplication factor.
pub open spec fn pll_out_f1(cfgr: u32, hsi: u32, hse: u32) -> u32 {
    let src = if (cfgr >> 16u32) & 1 == 0 {
        hsi / 2
    } else {
        hse / (if (cfgr >> 17u32) & 1 == 0 { 1u32 } else { 2u32 })
    };
    sat_mul32(src, pll_mul_f1(cfgr))
}

/// F1 core clock: the system clock chosen by CFGR.SW over the AHB prescaler.
pub open spec fn core_hz_f1(cfgr: u32, hsi: u32, hse: u32) -> u32 {
    let sw = cfgr & 3;
    let sysclk = if sw == 1 {
        hse
    } else if sw == 2 {
        pll_out_f1(cfgr, hsi, hse)
    } else {
        hsi
    };
    sysclk / ahb_divisor(cfgr)
}

/// F4 main PLL output: (source / M) * N / P, with M and N at least 1, kept in 1..=u32::MAX.
pub open spec fn pll_out_f407(pllcfgr: u32, hsi: u32, hse: u32) -> u32 {
    let src: u64 = if (pllcfgr >> 22u32) & 1 == 1 { hse as u64 } else { hsi as u64 };
    let m0 = pllcfgr & 0x3F;
    let m: u64 = if m0 < 1 { 1 } else { m0 as u64 };
    let n0 = (pllcfgr >> 6u32) & 0x1FF;
    let n: u64 = if n0 < 1 { 1 } else { n0 as u64 };
    let pv = (pllcfgr >> 16u32) & 3;
    let p: u64 = if pv == 0 { 2 } else if pv == 1 { 4 } else if pv == 2 { 6 } else { 8 };
    let out = sat_mul64(src / m, n) / p;
    if out < 1 { 1 } else if out > u32::MAX { u32::MAX } else { out as u32 }
}

/// F4 core clock: the system clock chosen by CFGR.SW, falling back to a ready oscillator, over
/// the AHB prescaler.
pub open spec fn core_hz_f407(cr: u32, cfgr: u32, pllcfgr: u32, hsi: u32, hse: u32) -> u32 {
    let hsi_ready = (cr >> 1u32) & 1 == 1;
    let hse_ready = (cr >> 17u32) & 1 == 1;
    let pll_ready = (cr >> 25u32) & 1 == 1;
    let sw = cfgr & 3;
    let sysclk = if sw == 0 {
        if hsi_ready { hsi } else { hse }
    } else if sw == 1 {
        if hse_ready { hse } else { hsi }
    } else if sw == 2 {
        if pll_ready {
            pll_out_f407(pllcfgr, hsi, hse)
        } else if hsi_ready {
            hsi
        } else {
            hse
        }
    } else {
        hsi
    };
    sysclk / ahb_divisor(cfgr)
}

/// The core clock the registers of `s` select, at least 1 Hz.
pub open spec fn computed_core_hz(s: RccState) -> u32 {
    let hz = if s.is_f407 {
        core_hz_f407(s.cr, s.cfgr, s.pllcfgr, s.hsi_hz, s.hse_hz)
    } else {
        core_hz_f1(s.cfgr, s.hsi_hz, s.hse_hz)
    };
    if hz < 1 { 1 } else { hz }
}

/// The core clock inferred from a SysTick reload value (a 1 ms tick): `(load + 1) * 1000`,
/// kept only for reloads of at least 50000 and results in 24..=300 MHz.
pub open spec fn inferred_from_load(load: u32) -> Option<u32> {
    let inferred = sat_mul32(if load == u32::MAX { u32::MAX } else { (load + 1) as u32 }, 1000);
    if load < 50_000 || inferred < 24_000_000 || inferred > 300_000_000 {
        None
    } else {
        Some(inferred)
    }
}

/// Model state after an MMIO write `e`, and the new core clock if it changed.
pub open spec fn rcc_step(s: RccState, e: MmioWriteEvent) -> (RccState, Option<u32>) {
    if eq_ignore_case(e.peripheral@, "STK"@) && eq_ignore_case(e.register@, "LOAD"@) {
        let load = merge_write(s.systick_load, e.width, e.addr, e.value) & 0x00FF_FFFF;
        let s1 = RccState { systick_load: load, ..s };
        match inferred_from_load(load) {
            Some(hz) if hz > s.core_clock_hz => (RccState { core_clock_hz: hz, ..s1 }, Some(hz)),
            _ => (s1, None),
        }
    } else if e.peripheral@ != "RCC"@ {
        (s, None)
    } else {
        let s1 = if eq_ignore_case(e.register@, "CR"@) {
            Some(RccState { cr: merge_write(s.cr, e.width, e.addr, e.value), ..s })
        } else if eq_ignore_case(e.register@, "CFGR"@) {
            Some(RccState { cfgr: merge_write(s.cfgr, e.width, e.addr, e.value), ..s })
        } else if eq_ignore_case(e.register@, "PLLCFGR"@) && s.is_f407 {
            Some(RccState { pllcfgr: merge_write(s.pllcfgr, e.width, e.addr, e.value), ..s })
        } else {
            None
        };
        match s1 {
            None => (s, None),
            Some(s1) => {
                let hz = computed_core_hz(s1);
                (RccState { core_clock_hz: hz, ..s1 }, if hz != s.core_clock_hz { Some(hz) } else { None })
            },
        }
    }
}

/// RCC clock model: tracks the STM32F1/F4 clock tree from MMIO write events.
#[derive(Debug, Clone)]
pub struct RccClockModel {
    is_f407: bool,
    cr: u32,
    cfgr: u32,
    pllcfgr: u32,
    systick_load: u32,
    hsi_hz: u32,
    hse_hz: u32,
    pub core_clock_hz: u32,
}

fn merge_mmio_write(current: u32, event: &MmioWriteEvent) -> (r: u32)
    ensures
        r == merge_write(current, event.width, event.addr, event.value),
{
    let addr = event.addr;
    assert(addr & 3 <= 3 && (addr & 2) >> 1u64 <= 1) by (bit_vector);
    if event.width == 1 {
        let shift = ((addr & 3) as u32) * 8;
        (current & !(0xFFu32 << shift)) | ((event.value & 0xFF) << shift)
    } else if event.width == 2 {
        let shift = (((addr & 2) >> 1u64) as u32) * 16;
        (current & !(0xFFFFu32 << shift)) | ((event.value & 0xFFFF) << shift)
    } else {
        event.value
    }
}

fn mul_sat32(a: u32, b: u32) -> (r: u32)
    ensures
        r == sat_mul32(a, b),
{
    match a.checked_mul(b) {
        Some(v) => v,
        None => u32::MAX,
    }
}

fn mul_sat64(a: u64, b: u64) -> (r: u64)
    ensures
        r == sat_mul64(a, b),
{
    match a.checked_mul(b) {
        Some(v) => v,
        None => u64::MAX,
    }
}

impl RccClockModel {
    /// The model's registers and clocks.
    pub closed spec fn state(&self) -> RccState {
        RccState {
            is_f407: self.is_f407,
            cr: self.cr,
            cfgr: self.cfgr,
            pllcfgr: self.pllcfgr,
            systick_load: self.systick_load,
            hsi_hz: self.hsi_hz,
            hse_hz: self.hse_hz,
            core_clock_hz: self.core_clock_hz,
        }
    }

    /// A model in the reset state of the F1 (8 MHz HSI) or F407 (16 MHz HSI) clock tree, with
    /// core clock `initial_core_hz` (at least 1).
    pub fn new(initial_core_hz: u32, is_f407: bool) -> (r: Self)
        ensures
            r.state() == (RccState {
                is_f407,
                cr: 0x0000_0083,
                cfgr: 0,
                pllcfgr: 0x2400_3010,
                systick_load: 0,
                hsi_hz: if is_f407 { 16_000_000 } else { 8_000_000 },
                hse_hz: 8_000_000,
                core_clock_hz: if initial_core_hz < 1 { 1 } else { initial_core_hz },
            }),
    {
        RccClockModel {
            is_f407,
            cr: 0x0000_0083,
            cfgr: 0x0000_0000,
            pllcfgr: 0x2400_3010,
            systick_load: 0,
            hsi_hz: if is_f407 { 16_000_000 } else { 8_000_000 },
            hse_hz: 8_000_000,
            core_clock_hz: if initial_core_hz < 1 { 1 } else { initial_core_hz },
        }
    }

    /// The current core clock.
    pub fn core_clock(&self) -> (r: u32)
        ensures
            r == self.state().core_clock_hz,
    {
        self.core_clock_hz
    }

    /// Follows one MMIO write: a SysTick reload that implies a faster core clock, or a write of
    /// RCC CR, CFGR or (F407) PLLCFGR. The new core clock, if it changed.
    pub fn apply_mmio(&mut self, event: &MmioWriteEvent) -> (r: Option<u32>)
        ensures
            (final(self).state(), r) == rcc_step(old(self).state(), *event),
    {
        proof {
            reveal_strlit("STK");
            reveal_strlit("LOAD");
            reveal_strlit("RCC");
            reveal_strlit("CR");
            reveal_strlit("CFGR");
            reveal_strlit("PLLCFGR");
        }
        if eq_ignore_ascii_case(event.peripheral.as_str(), "STK") && eq_ignore_ascii_case(event.register.as_str(), "LOAD") {
            return self.apply_systick_load_hint(event);
        }
        if !str_eq(event.peripheral.as_str(), "RCC") {
            return None;
        }
        let reg = event.register.as_str();
        if eq_ignore_ascii_case(reg, "CR") {
            self.cr = merge_mmio_write(self.cr, event);
        } else if eq_ignore_ascii_case(reg, "CFGR") {
            self.cfgr = merge_mmio_write(self.cfgr, event);
        } else if eq_ignore_ascii_case(reg, "PLLCFGR") && self.is_f407 {
            self.pllcfgr = merge_mmio_write(self.pllcfgr, event);
        } else {
            return None;
        }
        let prev = self.core_clock_hz;
        let hz = self.compute_core_clock_hz();
        self.core_clock_hz = if hz < 1 { 1 } else { hz };
        if self.core_clock_hz != prev {
            Some(self.core_clock_hz)
        } else {
            None
        }
    }

    fn apply_systick_load_hint(&mut self, event: &MmioWriteEvent) -> (r: Option<u32>)
        requires
            eq_ignore_case(event.peripheral@, "STK"@),
            eq_ignore_case(event.register@, "LOAD"@),
        ensures
            (final(self).state(), r) == rcc_step(old(self).state(), *event),
    {
        self.systick_load = merge_mmio_write(self.systick_load, event) & 0x00FF_FFFF;
        let load = self.systick_load;
        if load < 50_000 {
            return None;
        }
        let inferred = mul_sat32(load.saturating_add(1), 1_000);
        if inferred < 24_000_000 || inferred > 300_000_000 {
            return None;
        }
        if inferred <= self.core_clock_hz {
            return None;
        }
        self.core_clock_hz = inferred;
        Some(self.core_clock_hz)
    }

    fn compute_core_clock_hz(&self) -> (r: u32)
        ensures
            r == (if self.is_f407 {
                core_hz_f407(self.cr, self.cfgr, self.pllcfgr, self.hsi_hz, self.hse_hz)
            } else {
                core_hz_f1(self.cfgr, self.hsi_hz, self.hse_hz)
            }),
    {
        if self.is_f407 {
            return self.compute_core_clock_hz_f407();
        }
        self.compute_core_clock_hz_f1()
    }

    fn compute_core_clock_hz_f1(&self) -> (r: u32)
        ensures
            r == core_hz_f1(self.cfgr, self.hsi_hz, self.hse_hz),
    {
        let sw = self.cfgr & 0x3;
        let sysclk = if sw == 1 {
            self.hse_hz
        } else if sw == 2 {
            self.pll_output_hz_f1()
        } else {
            self.hsi_hz
        };
        sysclk / ahb_prescaler(self.cfgr)
    }

    fn compute_core_clock_hz_f407(&self) -> (r: u32)
        ensures
            r == core_hz_f407(self.cr, self.cfgr, self.pllcfgr, self.hsi_hz, self.hse_hz),
    {
        let hsi_ready = (self.cr >> 1u32) & 1 == 1;
        let hse_ready = (self.cr >> 17u32) & 1 == 1;
        let pll_ready = (self.cr >> 25u32) & 1 == 1;
        let sw = self.cfgr & 0x3;
        let sysclk = if sw == 0 {
            if hsi_ready { self.hsi_hz } else { self.hse_hz }
        } else if sw == 1 {
            if hse_ready { self.hse_hz } else { self.hsi_hz }
        } else if sw == 2 {
            if pll_ready {
                self.pll_output_hz_f407()
            } else if hsi_ready {
                self.hsi_hz
            } else {
                self.hse_hz
            }
        } else {
            self.hsi_hz
        };
        sysclk / ahb_prescaler(self.cfgr)
    }

    fn pll_output_hz_f1(&self) -> (r: u32)
        ensures
            r == pll_out_f1(self.cfgr, self.hsi_hz, self.hse_hz),
    {
        let src_hz = if (self.cfgr >> 16u32) & 0x1 == 0 {
            self.hsi_hz / 2
        } else {
            let hse_div: u32 = if (self.cfgr >> 17u32) & 0x1 == 0 { 1 } else { 2 };
            self.hse_hz / hse_div
        };
        mul_sat32(src_hz, pll_mul_factor_f1(self.cfgr))
    }

    fn pll_output_hz_f407(&self) -> (r: u32)
        ensures
            r == pll_out_f407(self.pllcfgr, self.hsi_hz, self.hse_hz),
    {
        let src_hz: u64 = if (self.pllcfgr >> 22u32) & 0x1 == 1 { self.hse_hz as u64 } else { self.hsi_hz as u64 };
        let m0 = self.pllcfgr & 0x3F;
        let m: u64 = if m0 < 1 { 1 } else { m0 as u64 };
        let n0 = (self.pllcfgr >> 6u32) & 0x1FF;
        let n: u64 = if n0 < 1 { 1 } else { n0 as u64 };
        let pv = (self.pllcfgr >> 16u32) & 0x3;
        let p: u64 = if pv == 0 { 2 } else if pv == 1 { 4 } else if pv == 2 { 6 } else { 8 };
        let vco_in = src_hz / m;
        let vco_out = mul_sat64(vco_in, n);
        let out = vco_out / p;
        if out < 1 {
            1
        } else if out > u32::MAX as u64 {
            u32::MAX
        } else {
            out as u32
        }
    }
}

fn pll_mul_factor_f1(cfgr: u32) -> (r: u32)
    ensures
        r == pll_mul_f1(cfgr),
{
    let v = (cfgr >> 18u32) & 0xF;
    if v <= 13 { v + 2 } else { 16 }
}

fn ahb_prescaler(cfgr: u32) -> (r: u32)
    ensures
        r == ahb_divisor(cfgr),
        r >= 1,
{
    let v = (cfgr >> 4u32) & 0xF;
    if v <= 7 {
        1
    } else if v == 8 {
        2
    } else if v == 9 {
        4
    } else if v == 10 {
        8
    } else if v == 11 {
        16
    } else if v == 12 {
        64
    } else if v == 13 {
        128
    } else if v == 14 {
        256
    } else {
        512
    }
}

} // verus!
