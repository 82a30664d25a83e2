//! The emulated microcontroller: a CPU core on a system bus built from a target description,
//! with SysTick, timers and the NVIC serviced after every instruction.
pub mod meta;
pub mod mmio;
pub mod sysbus;
pub mod systick;
pub mod timers;

use crate::bits::{sat_u64, sat_mul};
use crate::bus::traits::{SystemBus, ok_value};
use crate::cpu::{CpuArchitecture, CpuCore};
use crate::machine::meta::{MmioWriteEvent, RegisterMeta, SerialEvent, classify_meta_flags, classify_systick_reg, logged, log_write, spec_meta_flags, spec_systick_reg, META_SPI_DATA, META_SPI_STATUS, META_GPIO_BSRR};
use crate::machine::mmio::{mbyte, mword, put_word, read_mmio_u32, with_pending, spec_nvic_pending, nvic_pending_read, nvic_pending_write, spec_nvic_any_enabled, nvic_any_enabled};
use crate::machine::sysbus::MachineBus;
use crate::machine::systick::{SystickState, spec_tick, spec_ticks};
use crate::machine::timers::{RccRegs, TimerModel, TimerRegs, models_match, resolve_rcc_regs, resolve_timer_models, spec_rcc_regs, spec_timer_enable_bit, timer_enable_bit};
use crate::memory::{FirmwareImage, FirmwareSegment, MemoryBlock};
use crate::target::{MemoryRegion, MemoryRegionKind, TargetSpec};
use crate::text::{hex_message, hex_message2, spec_hex_message2};
use std::collections::HashMap;
use vstd::prelude::*;

verus! {

broadcast use vstd::std_specs::hash::group_hash_axioms;

/// Highest vector table base for which every vector address stays below 2^64.
pub const MAX_VECTOR_TABLE_BASE: u64 = 0xFFFF_FFFF_FFF0_0000;

/// PLL multiplier of an STM32F1 CFGR (PLLMUL field, 2..16).
pub open spec fn spec_pll_mul(cfgr: u32) -> u64 {
    let f = (cfgr >> 18) & 0xF;
    if f <= 13 { (f + 2) as u64 } else { 16 }
}

/// AHB prescaler divisor of a CFGR.
pub open spec fn spec_ahb_div(cfgr: u32) -> u64 {
    let h = (cfgr >> 4) & 0xF;
    if h <= 7 { 1 } else if h == 8 { 2 } else if h == 9 { 4 } else if h == 10 { 8 } else if h == 11 { 16 } else if h
        == 12 { 64 } else if h == 13 { 128 } else if h == 14 { 256 } else { 512 }
}

/// APB1 prescaler divisor of a CFGR.
pub open spec fn spec_apb1_div(cfgr: u32) -> u64 {
    let p = (cfgr >> 8) & 0x7;
    if p <= 3 { 1 } else if p == 4 { 2 } else if p == 5 { 4 } else if p == 6 { 8 } else { 16 }
}

/// System clock selected by CFGR.SW: HSI (8 MHz), HSE (8 MHz, once ready) or the PLL (once
/// ready; its source HSI/2, HSE or HSE/2); HSI otherwise.
pub open spec fn spec_sysclk(cr: u32, cfgr: u32) -> u64 {
    let hsi: u64 = 8_000_000;
    let hse: u64 = 8_000_000;
    let pll_src: u64 = if (cfgr >> 16) & 1 == 0 { hsi / 2 } else if (cfgr >> 17) & 1 == 0 { hse } else { hse / 2 };
    let sw = cfgr & 0x3;
    if sw == 1 {
        if (cr >> 17) & 1 == 1 { hse } else { hsi }
    } else if sw == 2 {
        if (cr >> 25) & 1 == 1 { sat_u64(pll_src * spec_pll_mul(cfgr)) } else { hsi }
    } else {
        hsi
    }
}

/// (core clock, timer clock) in Hz: from the RCC registers when the target has them,
/// otherwise the target's core clock for both.
pub open spec fn spec_tim_clocks(core_clock_hz: u32, rcc: Option<RccRegs>, m: Map<u64, u8>) -> (u64, u64) {
    match rcc {
        None => {
            let d: u64 = if core_clock_hz < 1 { 1 } else { core_clock_hz as u64 };
            (d, d)
        },
        Some(r) => {
            let cr = mword(m, r.cr);
            let cfgr = mword(m, r.cfgr);
            let h = spec_sysclk(cr, cfgr) / spec_ahb_div(cfgr);
            let hclk: u64 = if h < 1 { 1 } else { h as u64 };
            let p = hclk / spec_apb1_div(cfgr);
            let pclk1: u64 = if p < 1 { 1 } else { p as u64 };
            let tim: u64 = if spec_apb1_div(cfgr) == 1 { pclk1 } else { sat_u64(pclk1 * 2) };
            (hclk, if tim < 1 { 1 } else { tim })
        },
    }
}

/// The lowest pending and enabled interrupt: ISPR0/ISER0 (0..31), then ISPR1/ISER1 (32..63).
pub open spec fn spec_next_irq(m: Map<u64, u8>) -> Option<u8> {
    let p0 = mword(m, 0xE000_E200);
    let p1 = mword(m, 0xE000_E204);
    let r0 = mword(m, 0xE000_E100) & p0;
    let r1 = mword(m, 0xE000_E104) & p1;
    if p0 == 0 && p1 == 0 {
        None
    } else if r0 != 0 {
        Some(r0.trailing_zeros() as u8)
    } else if r1 != 0 {
        Some((32 + r1.trailing_zeros()) as u8)
    } else {
        None
    }
}

/// Whether a timer's clock is enabled in RCC APB1ENR (timers without an enable bit, and
/// targets without RCC, count as enabled).
pub open spec fn spec_timer_clock_on(rcc: Option<RccRegs>, m: Map<u64, u8>, name: Seq<char>) -> bool {
    match rcc {
        None => true,
        Some(r) => match spec_timer_enable_bit(name, r) {
            None => true,
            Some((addr, bit)) => mword(m, addr) & (1u32 << bit) != 0,
        },
    }
}

/// One timer advanced by `cycles` core cycles: the counter counts at the timer clock over
/// (PSC + 1), the fraction of a tick is carried in the residual, a wrap past ARR sets the
/// update flag (recorded as a write) and, with the update interrupt enabled, makes its
/// interrupt pending. A timer that is disabled (CR1.CEN or its RCC clock) does not move.
pub open spec fn timer_step(
    meta: Map<u64, RegisterMeta>,
    rcc: Option<RccRegs>,
    t: TimerModel,
    mm: Map<u64, u8>,
    w: Seq<MmioWriteEvent>,
    cycles: u64,
    core_hz: u64,
    tim_hz: u64,
    mm2: Map<u64, u8>,
    w2: Seq<MmioWriteEvent>,
    residual2: u64,
) -> bool {
    let regs = t.regs;
    if !spec_timer_clock_on(rcc, mm, t.peripheral@) || mword(mm, regs.cr1) & 1 == 0 {
        mm2 == mm && w2 == w && residual2 == t.tick_residual
    } else {
        let psc = mword(mm, regs.psc) as int;
        let arr = mword(mm, regs.arr) as int;
        let cnt = mword(mm, regs.cnt) as int;
        let q = tim_hz as int / (psc + 1);
        let counter_hz = if q < 1 { 1 } else { q };
        let numer = sat_u64(t.tick_residual + sat_u64(cycles * counter_hz)) as int;
        let ticks = numer / core_hz as int;
        &&& residual2 == (numer % core_hz as int) as u64
        &&& if ticks == 0 {
            mm2 == mm && w2 == w
        } else {
            let total = sat_u64(cnt + ticks) as int;
            let period = arr + 1;
            let m1 = put_word(mm, regs.cnt, (total % period) as u32);
            if total / period == 0 {
                mm2 == m1 && w2 == w
            } else {
                let sr = mword(m1, regs.sr) | 1;
                let m2 = put_word(m1, regs.sr, sr);
                &&& logged(w, w2, meta, regs.sr, 4, sr)
                &&& mm2 == if mword(m2, regs.dier) & 1 != 0 && t.irq is Some {
                    with_pending(m2, t.irq->0, true)
                } else {
                    m2
                }
            }
        }
    }
}

/// The first `k` timers of `ts` advanced in order from (`mm0`, `w0`) to (`mm`, `w`); `res` are
/// their new residuals.
pub open spec fn timers_run(
    meta: Map<u64, RegisterMeta>,
    rcc: Option<RccRegs>,
    ts: Seq<TimerModel>,
    k: int,
    cycles: u64,
    core_hz: u64,
    tim_hz: u64,
    mm0: Map<u64, u8>,
    w0: Seq<MmioWriteEvent>,
    mm: Map<u64, u8>,
    w: Seq<MmioWriteEvent>,
    res: Seq<u64>,
) -> bool
    decreases k,
{
    if k <= 0 {
        mm == mm0 && w == w0 && res.len() == 0
    } else {
        res.len() == k && exists|mmp: Map<u64, u8>, wp: Seq<MmioWriteEvent>|
            timers_run(meta, rcc, ts, k - 1, cycles, core_hz, tim_hz, mm0, w0, mmp, wp, res.drop_last())
                && #[trigger] timer_step(meta, rcc, ts[k - 1], mmp, wp, cycles, core_hz, tim_hz, mm, w, res.last())
    }
}

/// The emulated machine.
pub struct Machine<C: CpuCore<MachineBus>> {
    cpu: C,
    target: TargetSpec,
    bus: MachineBus,
    timers: Vec<TimerModel>,
    rcc_regs: Option<RccRegs>,
}

impl<C: CpuCore<MachineBus>> Machine<C> {
    pub closed spec fn spec_cpu(&self) -> C {
        self.cpu
    }

    pub closed spec fn spec_target(&self) -> TargetSpec {
        self.target
    }

    pub closed spec fn spec_bus(&self) -> MachineBus {
        self.bus
    }

    pub closed spec fn spec_timers(&self) -> Seq<TimerModel> {
        self.timers@
    }

    pub closed spec fn spec_rcc(&self) -> Option<RccRegs> {
        self.rcc_regs
    }

    pub fn cpu(&self) -> (r: &C)
        ensures
            *r == self.spec_cpu(),
    {
        &self.cpu
    }

    pub fn target(&self) -> (r: &TargetSpec)
        ensures
            *r == self.spec_target(),
    {
        &self.target
    }

    pub fn serial_output(&self) -> (r: &[SerialEvent])
        ensures
            r@ == self.spec_bus().serial_output@,
    {
        self.bus.serial_output.as_slice()
    }

    pub fn mmio_writes(&self) -> (r: &[MmioWriteEvent])
        ensures
            r@ == self.spec_bus().mmio_writes@,
    {
        self.bus.mmio_writes.as_slice()
    }

    /// Forgets the recorded serial bytes and register writes.
    pub fn clear_outputs(&mut self)
        ensures
            final(self).spec_bus().serial_output@.len() == 0,
            final(self).spec_bus().mmio_writes@.len() == 0,
            final(self).spec_bus().memory == old(self).spec_bus().memory,
            final(self).spec_bus().mmio == old(self).spec_bus().mmio,
            final(self).spec_bus().systick == old(self).spec_bus().systick,
            final(self).spec_cpu() == old(self).spec_cpu(),
    {
        self.bus.serial_output.clear();
        self.bus.mmio_writes.clear();
    }

    /// A byte read through the bus, as the CPU would do it.
    pub fn read8(&mut self, addr: u64) -> (r: Result<u8, String>)
        ensures
            old(self).spec_bus().read8_post(addr, ok_value(r), final(self).spec_bus()),
            final(self).spec_cpu() == old(self).spec_cpu(),
    {
        self.bus.read8(addr)
    }

    /// A byte write through the bus, as the CPU would do it.
    pub fn write8(&mut self, addr: u64, value: u8) -> (r: Result<(), String>)
        ensures
            old(self).spec_bus().write8_post(addr, value, r is Ok, final(self).spec_bus()),
            final(self).spec_cpu() == old(self).spec_cpu(),
    {
        self.bus.write8(addr, value)
    }

    /// Advances SysTick by `ticks` ticks.
    pub fn advance_systick_ticks(&mut self, ticks: u64)
        ensures
            final(self).spec_bus().systick == spec_ticks(old(self).spec_bus().systick, ticks as nat),
            final(self).spec_cpu() == old(self).spec_cpu(),
    {
        self.bus.systick.tick_many(ticks);
    }

    fn compute_tim_clock_hz(&self) -> (r: (u64, u64))
        ensures
            r == spec_tim_clocks(self.target.core_clock_hz, self.rcc_regs, self.bus.mmio@),
    {
        let default_hz: u64 = if self.target.core_clock_hz < 1 { 1 } else { self.target.core_clock_hz as u64 };
        let rcc = match self.rcc_regs {
            Some(r) => r,
            None => return (default_hz, default_hz),
        };
        let cr = read_mmio_u32(&self.bus.mmio, rcc.cr);
        let cfgr = read_mmio_u32(&self.bus.mmio, rcc.cfgr);
        let hsi_hz = 8_000_000u64;
        let hse_hz = 8_000_000u64;
        let f = (cfgr >> 18) & 0xF;
        let pll_mul: u64 = if f <= 13 { f as u64 + 2 } else { 16 };
        let pll_src_hz = if (cfgr >> 16) & 1 == 0 {
            hsi_hz / 2
        } else if (cfgr >> 17) & 1 == 0 {
            hse_hz
        } else {
            hse_hz / 2
        };
        let pll_ready = (cr >> 25) & 1 == 1;
        let hse_ready = (cr >> 17) & 1 == 1;
        let sw = cfgr & 0x3;
        let sysclk = if sw == 0 {
            hsi_hz
        } else if sw == 1 {
            if hse_ready { hse_hz } else { hsi_hz }
        } else if sw == 2 {
            if pll_ready { sat_mul(pll_src_hz, pll_mul) } else { hsi_hz }
        } else {
            hsi_hz
        };
        let h = (cfgr >> 4) & 0xF;
        let ahb_div: u64 = if h <= 7 { 1 } else if h == 8 { 2 } else if h == 9 { 4 } else if h == 10 { 8 } else if h
            == 11 { 16 } else if h == 12 { 64 } else if h == 13 { 128 } else if h == 14 { 256 } else { 512 };
        let p = (cfgr >> 8) & 0x7;
        let ppre1_div: u64 = if p <= 3 { 1 } else if p == 4 { 2 } else if p == 5 { 4 } else if p == 6 { 8 } else { 16 };
        let hq = sysclk / ahb_div;
        let hclk = if hq < 1 { 1 } else { hq };
        let pq = hclk / ppre1_div;
        let pclk1 = if pq < 1 { 1 } else { pq };
        let tim_clk = if ppre1_div == 1 { pclk1 } else { sat_mul(pclk1, 2) };
        (hclk, if tim_clk < 1 { 1 } else { tim_clk })
    }

    fn next_pending_enabled_irq(&self) -> (r: Option<u8>)
        ensures
            r == spec_next_irq(self.bus.mmio@),
    {
        let pending0 = read_mmio_u32(&self.bus.mmio, 0xE000_E200);
        let pending1 = read_mmio_u32(&self.bus.mmio, 0xE000_E204);
        if pending0 == 0 && pending1 == 0 {
            return None;
        }
        let enabled0 = read_mmio_u32(&self.bus.mmio, 0xE000_E100);
        let enabled1 = read_mmio_u32(&self.bus.mmio, 0xE000_E104);
        let ready0 = enabled0 & pending0;
        if ready0 != 0 {
            return Some(ready0.trailing_zeros() as u8);
        }
        let ready1 = enabled1 & pending1;
        if ready1 != 0 {
            return Some((32 + ready1.trailing_zeros()) as u8);
        }
        None
    }

    fn timer_clock_enabled(&self, peripheral: &str) -> (r: bool)
        ensures
            r == spec_timer_clock_on(self.rcc_regs, self.bus.mmio@, peripheral@),
    {
        let rcc = match self.rcc_regs {
            Some(r) => r,
            None => return true,
        };
        let (reg_addr, bit) = match timer_enable_bit(peripheral, rcc) {
            Some(p) => p,
            None => return true,
        };
        let reg = read_mmio_u32(&self.bus.mmio, reg_addr);
        (reg & (1u32 << bit)) != 0
    }
}

impl<C: CpuCore<MachineBus>> Machine<C> {
    fn advance_one_timer(&mut self, index: usize, emu_core_cycles: u64, core_hz: u64, tim_clk_hz: u64)
        requires
            index < old(self).timers@.len(),
            core_hz >= 1,
        ensures
            timer_step(
                old(self).bus.register_meta@,
                old(self).rcc_regs,
                old(self).timers@[index as int],
                old(self).bus.mmio@,
                old(self).bus.mmio_writes@,
                emu_core_cycles,
                core_hz,
                tim_clk_hz,
                final(self).bus.mmio@,
                final(self).bus.mmio_writes@,
                final(self).timers@[index as int].tick_residual,
            ),
            final(self).timers@.len() == old(self).timers@.len(),
            forall|j: int| 0 <= j < old(self).timers@.len() && j != index ==> final(self).timers@[j] == old(self).timers@[j],
            final(self).timers@[index as int].peripheral == old(self).timers@[index as int].peripheral,
            final(self).timers@[index as int].regs == old(self).timers@[index as int].regs,
            final(self).timers@[index as int].irq == old(self).timers@[index as int].irq,
            crate::machine::sysbus::keeps(old(self).bus, final(self).bus, false, true, false, true, false, false),
            final(self).cpu == old(self).cpu,
            final(self).target == old(self).target,
            final(self).rcc_regs == old(self).rcc_regs,
    {
        let regs = self.timers[index].regs;
        let irq = self.timers[index].irq;
        if !self.timer_clock_enabled(self.timers[index].peripheral.as_str()) {
            return;
        }
        let cr1 = read_mmio_u32(&self.bus.mmio, regs.cr1);
        if (cr1 & 0x1) == 0 {
            return;
        }
        let psc = read_mmio_u32(&self.bus.mmio, regs.psc) as u64;
        let arr = read_mmio_u32(&self.bus.mmio, regs.arr) as u64;
        let cnt = read_mmio_u32(&self.bus.mmio, regs.cnt) as u64;
        let q = tim_clk_hz / (psc + 1);
        let counter_hz = if q < 1 { 1 } else { q };
        let numer = self.timers[index].tick_residual.saturating_add(sat_mul(emu_core_cycles, counter_hz));
        let ticks = numer / core_hz;
        let residual = numer % core_hz;
        self.timers[index].tick_residual = residual;
        if ticks == 0 {
            return;
        }
        let period = arr + 1;
        let total = cnt.saturating_add(ticks);
        let wraps = total / period;
        let new_cnt = total % period;
        crate::machine::mmio::write_mmio_u32(&mut self.bus.mmio, regs.cnt, new_cnt as u32);
        if wraps == 0 {
            return;
        }
        let sr = read_mmio_u32(&self.bus.mmio, regs.sr) | 0x1;
        crate::machine::mmio::write_mmio_u32(&mut self.bus.mmio, regs.sr, sr);
        log_write(&mut self.bus.mmio_writes, &self.bus.register_meta, regs.sr, 4, sr);
        let dier = read_mmio_u32(&self.bus.mmio, regs.dier);
        if (dier & 0x1) != 0 {
            if let Some(irq) = irq {
                nvic_pending_write(&mut self.bus.mmio, irq, true);
            }
        }
    }
}

pub proof fn lemma_timers_run_extend(
    meta: Map<u64, RegisterMeta>,
    rcc: Option<RccRegs>,
    ts: Seq<TimerModel>,
    k: int,
    cycles: u64,
    core_hz: u64,
    tim_hz: u64,
    mm0: Map<u64, u8>,
    w0: Seq<MmioWriteEvent>,
    mmp: Map<u64, u8>,
    wp: Seq<MmioWriteEvent>,
    mm: Map<u64, u8>,
    w: Seq<MmioWriteEvent>,
    res: Seq<u64>,
)
    requires
        k > 0,
        res.len() == k,
        timers_run(meta, rcc, ts, k - 1, cycles, core_hz, tim_hz, mm0, w0, mmp, wp, res.drop_last()),
        timer_step(meta, rcc, ts[k - 1], mmp, wp, cycles, core_hz, tim_hz, mm, w, res.last()),
    ensures
        timers_run(meta, rcc, ts, k, cycles, core_hz, tim_hz, mm0, w0, mm, w, res),
{
}

/// New residuals of the timers `ts`.
pub open spec fn residuals(ts: Seq<TimerModel>) -> Seq<u64> {
    Seq::new(ts.len(), |i: int| ts[i].tick_residual)
}

/// `ts2` are the timers `ts` with only their residuals changed.
pub open spec fn same_timers(ts: Seq<TimerModel>, ts2: Seq<TimerModel>) -> bool {
    &&& ts2.len() == ts.len()
    &&& forall|j: int|
        0 <= j < ts.len() ==> {
            &&& (#[trigger] ts2[j]).peripheral == ts[j].peripheral
            &&& ts2[j].regs == ts[j].regs
            &&& ts2[j].irq == ts[j].irq
        }
}

impl<C: CpuCore<MachineBus>> Machine<C> {
    /// Every timer advanced by `emu_core_cycles` core cycles.
    fn advance_timers(&mut self, emu_core_cycles: u64)
        ensures
            ({
                let (core_hz, tim_hz) = spec_tim_clocks(old(self).target.core_clock_hz, old(self).rcc_regs, old(self).bus.mmio@);
                timers_run(
                    old(self).bus.register_meta@,
                    old(self).rcc_regs,
                    old(self).timers@,
                    old(self).timers@.len() as int,
                    emu_core_cycles,
                    core_hz,
                    tim_hz,
                    old(self).bus.mmio@,
                    old(self).bus.mmio_writes@,
                    final(self).bus.mmio@,
                    final(self).bus.mmio_writes@,
                    residuals(final(self).timers@),
                )
            }),
            same_timers(old(self).timers@, final(self).timers@),
            crate::machine::sysbus::keeps(old(self).bus, final(self).bus, false, true, false, true, false, false),
            final(self).cpu == old(self).cpu,
            final(self).target == old(self).target,
            final(self).rcc_regs == old(self).rcc_regs,
    {
        let (core_hz, tim_clk_hz) = self.compute_tim_clock_hz();
        let ghost ts0 = self.timers@;
        let ghost b0 = self.bus;
        let n = self.timers.len();
        let mut index: usize = 0;
        while index < n
            invariant
                index <= n,
                n == ts0.len(),
                core_hz >= 1,
                self.timers@.len() == n,
                self.cpu == old(self).cpu,
                self.target == old(self).target,
                self.rcc_regs == old(self).rcc_regs,
                ts0 == old(self).timers@,
                b0 == old(self).bus,
                (core_hz, tim_clk_hz) == spec_tim_clocks(old(self).target.core_clock_hz, old(self).rcc_regs, b0.mmio@),
                crate::machine::sysbus::keeps(b0, self.bus, false, true, false, true, false, false),
                forall|j: int| index <= j < n ==> self.timers@[j] == ts0[j],
                same_timers(ts0, self.timers@),
                timers_run(
                    b0.register_meta@,
                    self.rcc_regs,
                    ts0,
                    index as int,
                    emu_core_cycles,
                    core_hz,
                    tim_clk_hz,
                    b0.mmio@,
                    b0.mmio_writes@,
                    self.bus.mmio@,
                    self.bus.mmio_writes@,
                    residuals(self.timers@).take(index as int),
                ),
            decreases n - index,
        {
            let ghost mm = self.bus.mmio@;
            let ghost w = self.bus.mmio_writes@;
            let ghost res = residuals(self.timers@).take(index as int);
            self.advance_one_timer(index, emu_core_cycles, core_hz, tim_clk_hz);
            proof {
                let res2 = residuals(self.timers@).take(index + 1);
                assert(res2.drop_last() =~= res);
                assert(res2.last() == self.timers@[index as int].tick_residual);
                assert(timers_run(b0.register_meta@, self.rcc_regs, ts0, index as int, emu_core_cycles, core_hz, tim_clk_hz, b0.mmio@, b0.mmio_writes@, mm, w, res2.drop_last()));
                assert(timer_step(b0.register_meta@, self.rcc_regs, ts0[index as int], mm, w, emu_core_cycles, core_hz, tim_clk_hz, self.bus.mmio@, self.bus.mmio_writes@, res2.last()));
                lemma_timers_run_extend(b0.register_meta@, self.rcc_regs, ts0, index + 1, emu_core_cycles, core_hz, tim_clk_hz, b0.mmio@, b0.mmio_writes@, mm, w, self.bus.mmio@, self.bus.mmio_writes@, res2);
            }
            index = index + 1;
        }
        proof {
            assert(residuals(self.timers@).take(n as int) =~= residuals(self.timers@));
        }
    }
}

/// Vector table in use: VTOR when it is set, the target's table otherwise.
pub open spec fn vector_base(m: Map<u64, u8>, target_vtb: u64) -> u64 {
    let raw = mword(m, 0xE000_ED08) as u64;
    if raw == 0 { target_vtb } else { raw }
}

/// Exception number of interrupt `irq`.
pub open spec fn irq_exception(irq: u8) -> u16 {
    (irq as u16 + 16) as u16
}

/// Exception entry for pending interrupt `irq`: its pending bit is cleared, the core enters
/// exception `irq + 16` through the vector table at VTOR (or the target's table while VTOR is
/// 0); when the core does not take it, the interrupt is made pending again.
pub open spec fn service_post<C: CpuCore<MachineBus>>(
    c: C,
    b: MachineBus,
    target_vtb: u64,
    irq: u8,
    ok: bool,
    c2: C,
    b2: MachineBus,
) -> bool {
    if !spec_nvic_pending(b.mmio@, irq) {
        ok && c2 == c && b2 == b
    } else {
        let m1 = with_pending(b.mmio@, irq, false);
        let vtb = vector_base(m1, target_vtb);
        exists|b1: MachineBus|
            #![trigger b1.mmio]
            crate::machine::sysbus::keeps(b, b1, false, true, false, false, false, false) && b1.mmio@ == m1 && if vtb
                > MAX_VECTOR_TABLE_BASE {
                !ok && c2 == c && b2 == b1
            } else {
                exists|r: Option<bool>, c3: C, b3: MachineBus|
                    #[trigger] c.exception_post(b1, vtb, irq_exception(irq), r, c3, b3) && match r {
                        None => !ok && c2 == c3 && b2 == b3,
                        Some(true) => ok && c2 == c3 && b2 == b3,
                        Some(false) => {
                            &&& ok
                            &&& c2 == c3
                            &&& crate::machine::sysbus::keeps(b3, b2, false, true, false, false, false, false)
                            &&& b2.mmio@ == with_pending(b3.mmio@, irq, true)
                        },
                    }
            }
    }
}

/// Interrupt dispatch after a step: nothing while the core is in an exception or no
/// interrupt is both pending and enabled; otherwise the lowest such interrupt is serviced.
pub open spec fn interrupt_post<C: CpuCore<MachineBus>>(c: C, b: MachineBus, target_vtb: u64, ok: bool, c2: C, b2: MachineBus) -> bool {
    if c.spec_in_exception() {
        ok && c2 == c && b2 == b
    } else {
        match spec_next_irq(b.mmio@) {
            None => ok && c2 == c && b2 == b,
            Some(irq) => service_post(c, b, target_vtb, irq, ok, c2, b2),
        }
    }
}

impl<C: CpuCore<MachineBus>> Machine<C> {
    fn service_irq(&mut self, irq: u8) -> (r: Result<(), String>)
        requires
            old(self).cpu.inv(),
        ensures
            final(self).cpu.inv(),
            service_post(old(self).cpu, old(self).bus, old(self).target.vector_table_base, irq, r is Ok, final(self).cpu, final(self).bus),
            final(self).target == old(self).target,
            final(self).timers == old(self).timers,
            final(self).rcc_regs == old(self).rcc_regs,
    {
        let pending = nvic_pending_read(&self.bus.mmio, irq);
        if !pending {
            return Ok(());
        }
        nvic_pending_write(&mut self.bus.mmio, irq, false);
        let ghost b1 = self.bus;
        let raw = read_mmio_u32(&self.bus.mmio, 0xE000_ED08) as u64;
        let vector_table_base = if raw == 0 { self.target.vector_table_base } else { raw };
        if vector_table_base > MAX_VECTOR_TABLE_BASE {
            return Err(hex_message("read from unmapped address ", vector_table_base, 8, ""));
        }
        let ghost c0 = self.cpu;
        assert(vector_table_base == vector_base(b1.mmio@, self.target.vector_table_base));
        let number = irq as u16 + 16;
        assert(number == irq_exception(irq));
        let entered = self.cpu.enter_exception(&mut self.bus, vector_table_base, number);
        let ghost b3 = self.bus;
        assert(c0.exception_post(b1, vector_base(b1.mmio@, self.target.vector_table_base), irq_exception(irq), ok_value(entered), self.cpu, b3));
        let entered = match entered {
            Ok(e) => e,
            Err(e) => return Err(e),
        };
        if !entered {
            nvic_pending_write(&mut self.bus.mmio, irq, true);
        }
        Ok(())
    }

    fn try_service_interrupt(&mut self) -> (r: Result<(), String>)
        requires
            old(self).cpu.inv(),
        ensures
            final(self).cpu.inv(),
            interrupt_post(old(self).cpu, old(self).bus, old(self).target.vector_table_base, r is Ok, final(self).cpu, final(self).bus),
            final(self).target == old(self).target,
            final(self).timers == old(self).timers,
            final(self).rcc_regs == old(self).rcc_regs,
    {
        if self.cpu.in_exception() {
            return Ok(());
        }
        if let Some(irq) = self.next_pending_enabled_irq() {
            self.service_irq(irq)?;
        }
        Ok(())
    }
}

/// Emulated core cycles of one step: the SysTick divider, at least 1.
pub open spec fn step_cycles(divider: u32) -> u64 {
    if divider < 1 { 1 } else { divider as u64 }
}

/// The bus after the SysTick tick of a step.
pub open spec fn ticked(b: MachineBus) -> MachineBus {
    MachineBus { systick: spec_tick(b.systick), ..b }
}

/// After a successful instruction: SysTick ticks once, the timers advance by the emulated core
/// cycles of one step (the SysTick divider, at least 1), and pending interrupts are serviced
/// while some interrupt is enabled.
pub open spec fn after_step<C: CpuCore<MachineBus>>(m: Machine<C>, c1: C, b1: MachineBus, ok: bool, m2: Machine<C>) -> bool {
    let target = m.spec_target();
    let b2 = ticked(b1);
    let cycles = step_cycles(target.systick_reload_divider);
    let clocks = spec_tim_clocks(target.core_clock_hz, m.spec_rcc(), b2.mmio@);
    exists|b3: MachineBus, ts3: Seq<TimerModel>|
        #[trigger] timers_run(
            b2.register_meta@,
            m.spec_rcc(),
            m.spec_timers(),
            m.spec_timers().len() as int,
            cycles,
            clocks.0,
            clocks.1,
            b2.mmio@,
            b2.mmio_writes@,
            b3.mmio@,
            b3.mmio_writes@,
            residuals(ts3),
        ) && same_timers(m.spec_timers(), ts3) && crate::machine::sysbus::keeps(b2, b3, false, true, false, true, false, false)
            && m2.spec_timers() == ts3 && if b3.nvic_any_enabled {
            interrupt_post(c1, b3, target.vector_table_base, ok, m2.spec_cpu(), m2.spec_bus())
        } else {
            ok && m2.spec_cpu() == c1 && m2.spec_bus() == b3
        }
}

/// One machine step: the core executes one instruction on the bus; on success the timers
/// and interrupts follow (see `after_step`); on failure nothing else happens.
pub open spec fn machine_step<C: CpuCore<MachineBus>>(m: Machine<C>, ok: bool, m2: Machine<C>) -> bool {
    &&& m2.spec_target() == m.spec_target()
    &&& m2.spec_rcc() == m.spec_rcc()
    &&& exists|ok1: bool, c1: C, b1: MachineBus|
        #[trigger] m.spec_cpu().step_post(m.spec_bus(), ok1, c1, b1) && if !ok1 {
            !ok && m2.spec_cpu() == c1 && m2.spec_bus() == b1 && m2.spec_timers() == m.spec_timers()
        } else {
            after_step(m, c1, b1, ok, m2)
        }
}

impl<C: CpuCore<MachineBus>> Machine<C> {
    /// The machine invariant: the core's own invariant.
    pub open spec fn wf(&self) -> bool {
        self.spec_cpu().inv()
    }

    /// Executes one instruction, then advances SysTick and the timers and services a pending
    /// interrupt.
    pub fn step_cpu(&mut self) -> (r: Result<(), String>)
        requires
            old(self).wf(),
        ensures
            final(self).wf(),
            machine_step(*old(self), r is Ok, *final(self)),
    {
        let ghost m0 = *self;
        let s = self.cpu.step(&mut self.bus);
        assert(m0.spec_cpu().step_post(m0.spec_bus(), s is Ok, self.cpu, self.bus));
        if let Err(e) = s {
            return Err(e);
        }
        let ghost c1 = self.cpu;
        let ghost b1 = self.bus;
        self.bus.systick.tick();
        let divider = self.target.systick_reload_divider;
        let emu_cycles: u64 = if divider < 1 { 1 } else { divider as u64 };
        self.advance_timers(emu_cycles);
        let ghost b3 = self.bus;
        let ghost ts3 = self.timers@;
        let ghost b2 = ticked(b1);
        assert(emu_cycles == step_cycles(m0.spec_target().systick_reload_divider));
        assert(b2.mmio == b1.mmio && b2.mmio_writes == b1.mmio_writes && b2.register_meta == b1.register_meta);
        assert(timers_run(
            b2.register_meta@,
            m0.spec_rcc(),
            m0.spec_timers(),
            m0.spec_timers().len() as int,
            step_cycles(m0.spec_target().systick_reload_divider),
            spec_tim_clocks(m0.spec_target().core_clock_hz, m0.spec_rcc(), b2.mmio@).0,
            spec_tim_clocks(m0.spec_target().core_clock_hz, m0.spec_rcc(), b2.mmio@).1,
            b2.mmio@,
            b2.mmio_writes@,
            b3.mmio@,
            b3.mmio_writes@,
            residuals(ts3),
        ));
        if self.bus.nvic_any_enabled {
            self.try_service_interrupt()?;
        }
        Ok(())
    }

    /// Resets the core from the target's vector table.
    pub fn reset_cpu(&mut self) -> (r: Result<(), String>)
        requires
            old(self).wf(),
        ensures
            final(self).wf(),
            final(self).spec_target() == old(self).spec_target(),
            final(self).spec_timers() == old(self).spec_timers(),
            final(self).spec_rcc() == old(self).spec_rcc(),
            old(self).spec_target().vector_table_base <= MAX_VECTOR_TABLE_BASE ==> old(self).spec_cpu().reset_post(
                old(self).spec_bus(),
                old(self).spec_target().vector_table_base,
                r is Ok,
                final(self).spec_cpu(),
                final(self).spec_bus(),
            ),
            old(self).spec_target().vector_table_base > MAX_VECTOR_TABLE_BASE ==> r is Err && final(self).spec_cpu()
                == old(self).spec_cpu() && final(self).spec_bus() == old(self).spec_bus(),
    {
        let vector_table_base = self.target.vector_table_base;
        if vector_table_base > MAX_VECTOR_TABLE_BASE {
            return Err(hex_message("read from unmapped address ", vector_table_base, 8, ""));
        }
        self.cpu.reset(&mut self.bus, vector_table_base)
    }
}

/// Segment `seg` fits inside block `b`.
pub open spec fn seg_fits(b: MemoryBlock, seg: FirmwareSegment) -> bool {
    b.spec_contains(seg.load_address) && seg.load_address + seg.bytes@.len() <= b.spec_end()
}

/// Index of the first block from `i` on that `seg` fits in, or -1.
pub open spec fn seg_block(blocks: Seq<MemoryBlock>, seg: FirmwareSegment, i: int) -> int
    decreases blocks.len() - i,
{
    if i < 0 || i >= blocks.len() {
        -1
    } else if seg_fits(blocks[i], seg) {
        i
    } else {
        seg_block(blocks, seg, i + 1)
    }
}

pub proof fn lemma_seg_block_range(blocks: Seq<MemoryBlock>, seg: FirmwareSegment, i: int)
    requires
        0 <= i,
    ensures
        seg_block(blocks, seg, i) == -1 || (i <= seg_block(blocks, seg, i) < blocks.len() && seg_fits(
            blocks[seg_block(blocks, seg, i)],
            seg,
        )),
    decreases blocks.len() - i,
{
    if i < blocks.len() && !seg_fits(blocks[i], seg) {
        lemma_seg_block_range(blocks, seg, i + 1);
    }
}

/// Loading one segment: its bytes replace those of the first block it fits in (flash
/// included); a segment that fits in no block is an error.
pub open spec fn seg_loaded(blocks: Seq<MemoryBlock>, seg: FirmwareSegment, ok: bool, blocks2: Seq<MemoryBlock>) -> bool {
    let i = seg_block(blocks, seg, 0);
    if i < 0 {
        !ok && blocks2 == blocks
    } else {
        let b = blocks[i];
        let o = seg.load_address - b.spec_base();
        &&& ok
        &&& blocks2.len() == blocks.len()
        &&& forall|j: int| 0 <= j < blocks.len() && j != i ==> blocks2[j] == blocks[j]
        &&& blocks2[i].spec_base() == b.spec_base()
        &&& blocks2[i].spec_writable() == b.spec_writable()
        &&& blocks2[i].spec_data() == b.spec_data().subrange(0, o) + seg.bytes@ + b.spec_data().subrange(
            o + seg.bytes@.len(),
            b.spec_data().len() as int,
        )
    }
}

/// One step of loading: nothing more after an error.
pub open spec fn seg_step(bp: Seq<MemoryBlock>, seg: FirmwareSegment, okp: bool, ok: bool, blocks: Seq<MemoryBlock>) -> bool {
    if !okp {
        !ok && blocks == bp
    } else {
        seg_loaded(bp, seg, ok, blocks)
    }
}

/// The first `k` segments loaded in order from `blocks0`, stopping at the first error.
pub open spec fn firmware_loaded(blocks0: Seq<MemoryBlock>, segs: Seq<FirmwareSegment>, k: int, ok: bool, blocks: Seq<MemoryBlock>) -> bool
    decreases k,
{
    if k <= 0 {
        ok && blocks == blocks0
    } else {
        exists|okp: bool, bp: Seq<MemoryBlock>|
            firmware_loaded(blocks0, segs, k - 1, okp, bp) && #[trigger] seg_step(bp, segs[k - 1], okp, ok, blocks)
    }
}

pub proof fn lemma_firmware_loaded_extend(
    blocks0: Seq<MemoryBlock>,
    segs: Seq<FirmwareSegment>,
    k: int,
    okp: bool,
    bp: Seq<MemoryBlock>,
    ok: bool,
    blocks: Seq<MemoryBlock>,
)
    requires
        k > 0,
        firmware_loaded(blocks0, segs, k - 1, okp, bp),
        seg_step(bp, segs[k - 1], okp, ok, blocks),
    ensures
        firmware_loaded(blocks0, segs, k, ok, blocks),
{
}

pub proof fn lemma_firmware_failed(blocks0: Seq<MemoryBlock>, segs: Seq<FirmwareSegment>, k: int, n: int, blocks: Seq<MemoryBlock>)
    requires
        0 < k <= n,
        firmware_loaded(blocks0, segs, k, false, blocks),
    ensures
        firmware_loaded(blocks0, segs, n, false, blocks),
    decreases n - k,
{
    if k < n {
        assert(seg_step(blocks, segs[k], false, false, blocks));
        lemma_firmware_loaded_extend(blocks0, segs, k + 1, false, blocks, false, blocks);
        lemma_firmware_failed(blocks0, segs, k + 1, n, blocks);
    }
}

/// Index of the first block that `segment` fits in.
fn find_segment_block(blocks: &Vec<MemoryBlock>, segment: &FirmwareSegment) -> (r: Option<usize>)
    ensures
        match r {
            Some(i) => i as int == seg_block(blocks@, *segment, 0) && i < blocks@.len(),
            None => seg_block(blocks@, *segment, 0) == -1,
        },
{
    let load = segment.load_address;
    let len = segment.bytes.len();
    let mut i: usize = 0;
    while i < blocks.len()
        invariant
            i <= blocks@.len(),
            seg_block(blocks@, *segment, 0) == seg_block(blocks@, *segment, i as int),
            len == segment.bytes@.len(),
            load == segment.load_address,
        decreases blocks@.len() - i,
    {
        let block = &blocks[i];
        if block.contains(load) && (len as u64) <= (block.len() as u64) - (load - block.base()) {
            return Some(i);
        }
        i = i + 1;
    }
    None
}

impl<C: CpuCore<MachineBus>> Machine<C> {
    /// Copies every segment of `firmware` into the first flash or RAM block it fits in.
    pub fn load_firmware(&mut self, firmware: &FirmwareImage) -> (r: Result<(), String>)
        ensures
            firmware_loaded(
                old(self).spec_bus().memory@,
                firmware.spec_segments(),
                firmware.spec_segments().len() as int,
                r is Ok,
                final(self).spec_bus().memory@,
            ),
            crate::machine::sysbus::keeps(old(self).spec_bus(), final(self).spec_bus(), true, false, false, false, false, false),
            final(self).spec_cpu() == old(self).spec_cpu(),
            final(self).spec_target() == old(self).spec_target(),
            final(self).spec_timers() == old(self).spec_timers(),
            final(self).spec_rcc() == old(self).spec_rcc(),
            r matches Err(e) ==> exists|k: int|
                0 <= k < firmware.spec_segments().len() && e@ == #[trigger] segment_error(firmware.spec_segments()[k]),
    {
        let segments = firmware.segments();
        let ghost b0 = self.bus.memory@;
        let mut k: usize = 0;
        while k < segments.len()
            invariant
                k <= segments@.len(),
                segments@ == firmware.spec_segments(),
                b0 == old(self).bus.memory@,
                firmware_loaded(b0, segments@, k as int, true, self.bus.memory@),
                crate::machine::sysbus::keeps(old(self).bus, self.bus, true, false, false, false, false, false),
                self.cpu == old(self).cpu,
                self.target == old(self).target,
                self.timers == old(self).timers,
                self.rcc_regs == old(self).rcc_regs,
            decreases segments@.len() - k,
        {
            let segment = &segments[k];
            let load = segment.load_address;
            let len = segment.bytes.len();
            let ghost bp = self.bus.memory@;
            let found = find_segment_block(&self.bus.memory, segment);
            let i = match found {
                Some(i) => i,
                None => {
                    proof {
                        assert(seg_block(bp, segments@[k as int], 0) == -1);
                        assert(seg_step(bp, segments@[k as int], true, false, bp));
                        lemma_firmware_loaded_extend(b0, segments@, k + 1, true, bp, false, bp);
                        lemma_firmware_failed(b0, segments@, k + 1, segments@.len() as int, bp);
                    }
                    let e = hex_message2(
                        "firmware segment ",
                        load,
                        8,
                        "..",
                        load.wrapping_add(len as u64),
                        8,
                        " does not match any writable or flash memory region",
                    );
                    assert(e@ == segment_error(segments@[k as int]));
                    return Err(e);
                },
            };
            proof {
                lemma_seg_block_range(bp, segments@[k as int], 0);
            }
            let res = self.bus.memory[i].load_bytes(load, &segment.bytes);
            proof {
                assert(seg_loaded(bp, segments@[k as int], true, self.bus.memory@));
                lemma_firmware_loaded_extend(b0, segments@, k + 1, true, bp, true, self.bus.memory@);
            }
            k = k + 1;
        }
        Ok(())
    }
}

/// The error for a firmware segment that fits no flash or writable block.
pub open spec fn segment_error(seg: FirmwareSegment) -> Seq<char> {
    spec_hex_message2(
        "firmware segment "@,
        seg.load_address,
        8,
        ".."@,
        seg.load_address.wrapping_add(seg.bytes@.len() as u64) as u64,
        8,
        " does not match any writable or flash memory region"@,
    )
}

/// (base, length, writable) of the memory block of each flash or RAM region, in order.
pub open spec fn region_blocks(regions: Seq<MemoryRegion>, n: int) -> Seq<(u64, nat, bool)>
    decreases n,
{
    if n <= 0 || n > regions.len() {
        Seq::empty()
    } else {
        let rest = region_blocks(regions, n - 1);
        let r = regions[n - 1];
        let len: nat = if r.range.end > r.range.start { ((r.range.end - r.range.start) as usize) as nat } else { 0 };
        if r.kind == MemoryRegionKind::Flash {
            rest.push((r.range.start, len, false))
        } else if r.kind == MemoryRegionKind::Ram {
            rest.push((r.range.start, len, true))
        } else {
            rest
        }
    }
}

/// `blocks` are zero-filled blocks as `rb` describes.
pub open spec fn blocks_as(blocks: Seq<MemoryBlock>, rb: Seq<(u64, nat, bool)>) -> bool {
    &&& blocks.len() == rb.len()
    &&& forall|i: int|
        0 <= i < blocks.len() ==> {
            &&& (#[trigger] blocks[i]).spec_base() == rb[i].0
            &&& blocks[i].spec_data() == Seq::new(rb[i].1, |k: int| 0u8)
            &&& blocks[i].spec_writable() == rb[i].2
        }
}

/// Index of the first flash region from `i` on, or -1.
pub open spec fn first_flash(regions: Seq<MemoryRegion>, i: int) -> int
    decreases regions.len() - i,
{
    if i < 0 || i >= regions.len() {
        -1
    } else if regions[i].kind == MemoryRegionKind::Flash {
        i
    } else {
        first_flash(regions, i + 1)
    }
}

/// Start of the first flash region, or 0.
pub open spec fn spec_flash_base(regions: Seq<MemoryRegion>) -> u64 {
    let i = first_flash(regions, 0);
    if i < 0 { 0 } else { regions[i].range.start }
}

/// What the machine keeps of a register byte: peripheral and register names, byte offset,
/// flags, SysTick register and paired register address.
pub open spec fn meta_view(m: RegisterMeta) -> (Seq<char>, Seq<char>, u8, u16, Option<crate::machine::systick::SystickReg>, u64) {
    (m.peripheral@, m.register@, m.byte_offset, m.flags, m.systick, m.paired_addr)
}

/// Number of bytes a register occupies: its width in bytes, between 1 and 8.
pub open spec fn reg_width(r: crate::target::RegisterSpec) -> nat {
    let w = r.width_bits / 8;
    if w < 1 { 1 } else if w > 8 { 8 } else { w as nat }
}

/// Address of the first register named `name` (up to ASCII case) of `rs`, or 0.
pub open spec fn first_reg_addr(rs: Seq<crate::target::RegisterSpec>, name: Seq<char>) -> u64 {
    let i = crate::machine::timers::find_register(rs, name, 0);
    if i < 0 { 0 } else { rs[i].address }
}

/// The paired register of a register with `flags` in peripheral `p`: its SR for SPI SR/DR,
/// its ODR for GPIO BSRR, none (0) otherwise.
pub open spec fn paired_of(p: crate::target::PeripheralSpec, flags: u16) -> u64 {
    if flags & META_SPI_DATA != 0 || flags & META_SPI_STATUS != 0 {
        first_reg_addr(p.registers@, "SR"@)
    } else if flags & META_GPIO_BSRR != 0 {
        first_reg_addr(p.registers@, "ODR"@)
    } else {
        0
    }
}

/// One register byte known to the machine: address, reset value, description.
pub type RegByte = (u64, u8, (Seq<char>, Seq<char>, u8, u16, Option<crate::machine::systick::SystickReg>, u64));

/// The first `n` bytes of register `r` of peripheral `p`, little-endian.
pub open spec fn reg_entries(p: crate::target::PeripheralSpec, r: crate::target::RegisterSpec, n: nat) -> Seq<RegByte> {
    let flags = spec_meta_flags(p.name@, r.name@);
    Seq::new(
        n,
        |k: int|
            (
                r.address.wrapping_add(k as u64),
                (r.reset_value >> ((8 * k) as u64)) as u8,
                (p.name@, r.name@, k as u8, flags, spec_systick_reg(p.name@, r.name@), paired_of(p, flags)),
            ),
    )
}

/// The bytes of the first `m` registers of `p`.
pub open spec fn periph_entries(p: crate::target::PeripheralSpec, m: int) -> Seq<RegByte>
    decreases m,
{
    if m <= 0 || m > p.registers@.len() {
        Seq::empty()
    } else {
        periph_entries(p, m - 1) + reg_entries(p, p.registers@[m - 1], reg_width(p.registers@[m - 1]))
    }
}

/// The bytes of every register of the first `n` peripherals of `ps`.
pub open spec fn all_entries(ps: Seq<crate::target::PeripheralSpec>, n: int) -> Seq<RegByte>
    decreases n,
{
    if n <= 0 || n > ps.len() {
        Seq::empty()
    } else {
        all_entries(ps, n - 1) + periph_entries(ps[n - 1], ps[n - 1].registers@.len() as int)
    }
}

/// Register bytes by address (a later byte at the same address wins).
pub open spec fn entries_mmio(es: Seq<RegByte>) -> Map<u64, u8>
    decreases es.len(),
{
    if es.len() == 0 {
        Map::empty()
    } else {
        entries_mmio(es.drop_last()).insert(es.last().0, es.last().1)
    }
}

/// Register byte descriptions by address (a later byte at the same address wins).
pub open spec fn entries_meta(es: Seq<RegByte>) -> Map<u64, (Seq<char>, Seq<char>, u8, u16, Option<crate::machine::systick::SystickReg>, u64)>
    decreases es.len(),
{
    if es.len() == 0 {
        Map::empty()
    } else {
        entries_meta(es.drop_last()).insert(es.last().0, es.last().2)
    }
}

/// `meta` describes exactly the register bytes `es`.
pub open spec fn meta_as(meta: Map<u64, RegisterMeta>, es: Seq<RegByte>) -> bool {
    &&& meta.dom() == entries_meta(es).dom()
    &&& forall|a: u64| #[trigger] meta.contains_key(a) ==> meta_view(meta[a]) == entries_meta(es)[a]
}

/// The flash and RAM blocks of the regions, zero-filled, in order.
fn build_memory(regions: &Vec<MemoryRegion>) -> (r: Vec<MemoryBlock>)
    ensures
        blocks_as(r@, region_blocks(regions@, regions@.len() as int)),
{
    let mut memory: Vec<MemoryBlock> = Vec::new();
    let mut i: usize = 0;
    while i < regions.len()
        invariant
            i <= regions@.len(),
            blocks_as(memory@, region_blocks(regions@, i as int)),
        decreases regions@.len() - i,
    {
        let region = &regions[i];
        let start = region.range.start;
        let end = region.range.end;
        let len: u64 = if end > start { end - start } else { 0 };
        let ghost before = memory@;
        match region.kind {
            MemoryRegionKind::Flash => {
                memory.push(MemoryBlock::new(start, len as usize, false));
            },
            MemoryRegionKind::Ram => {
                memory.push(MemoryBlock::new(start, len as usize, true));
            },
            _ => {},
        }
        proof {
            let rb = region_blocks(regions@, i + 1);
            assert(rb == if region.kind == MemoryRegionKind::Flash {
                region_blocks(regions@, i as int).push((start, (len as usize) as nat, false))
            } else if region.kind == MemoryRegionKind::Ram {
                region_blocks(regions@, i as int).push((start, (len as usize) as nat, true))
            } else {
                region_blocks(regions@, i as int)
            });
            assert forall|j: int| 0 <= j < memory@.len() implies {
                &&& (#[trigger] memory@[j]).spec_base() == rb[j].0
                &&& memory@[j].spec_data() == Seq::new(rb[j].1, |k: int| 0u8)
                &&& memory@[j].spec_writable() == rb[j].2
            } by {
                if j < before.len() {
                    assert(memory@[j] == before[j]);
                }
            }
        }
        i = i + 1;
    }
    memory
}

/// Start of the first flash region, or 0.
fn flash_base_of(regions: &Vec<MemoryRegion>) -> (r: u64)
    ensures
        r == spec_flash_base(regions@),
{
    let mut i: usize = 0;
    while i < regions.len()
        invariant
            i <= regions@.len(),
            first_flash(regions@, 0) == first_flash(regions@, i as int),
        decreases regions@.len() - i,
    {
        if regions[i].kind == MemoryRegionKind::Flash {
            return regions[i].range.start;
        }
        i = i + 1;
    }
    0
}

/// Address of the first register named `name` (up to ASCII case), or 0.
fn first_register_address(rs: &Vec<crate::target::RegisterSpec>, name: &str) -> (r: u64)
    ensures
        r == first_reg_addr(rs@, name@),
{
    let mut i: usize = 0;
    while i < rs.len()
        invariant
            i <= rs@.len(),
            crate::machine::timers::find_register(rs@, name@, 0) == crate::machine::timers::find_register(rs@, name@, i as int),
        decreases rs@.len() - i,
    {
        if crate::text::eq_ignore_ascii_case(rs[i].name.as_str(), name) {
            return rs[i].address;
        }
        i = i + 1;
    }
    0
}

pub proof fn lemma_entries_push(es: Seq<RegByte>, e: RegByte)
    ensures
        entries_mmio(es.push(e)) == entries_mmio(es).insert(e.0, e.1),
        entries_meta(es.push(e)) == entries_meta(es).insert(e.0, e.2),
{
    assert(es.push(e).drop_last() =~= es);
}

/// Fills the register byte map and the register descriptions from the peripherals.
fn build_registers(
    ps: &Vec<crate::target::PeripheralSpec>,
    mmio: &mut HashMap<u64, u8>,
    register_meta: &mut HashMap<u64, RegisterMeta>,
)
    requires
        old(mmio)@ == Map::<u64, u8>::empty(),
        old(register_meta)@ == Map::<u64, RegisterMeta>::empty(),
    ensures
        final(mmio)@ == entries_mmio(all_entries(ps@, ps@.len() as int)),
        meta_as(final(register_meta)@, all_entries(ps@, ps@.len() as int)),
{
    let mut pi: usize = 0;
    while pi < ps.len()
        invariant
            pi <= ps@.len(),
            mmio@ == entries_mmio(all_entries(ps@, pi as int)),
            meta_as(register_meta@, all_entries(ps@, pi as int)),
        decreases ps@.len() - pi,
    {
        let peripheral = &ps[pi];
        let spi_sr_addr = first_register_address(&peripheral.registers, "SR");
        let gpio_odr_addr = first_register_address(&peripheral.registers, "ODR");
        let ghost base = all_entries(ps@, pi as int);
        let mut ri: usize = 0;
        while ri < peripheral.registers.len()
            invariant
                pi < ps@.len(),
                *peripheral == ps@[pi as int],
                base == all_entries(ps@, pi as int),
                spi_sr_addr == first_reg_addr(peripheral.registers@, "SR"@),
                gpio_odr_addr == first_reg_addr(peripheral.registers@, "ODR"@),
                ri <= peripheral.registers@.len(),
                mmio@ == entries_mmio(base + periph_entries(*peripheral, ri as int)),
                meta_as(register_meta@, base + periph_entries(*peripheral, ri as int)),
            decreases peripheral.registers@.len() - ri,
        {
            let register = &peripheral.registers[ri];
            let flags = classify_meta_flags(peripheral.name.as_str(), register.name.as_str());
            let systick = classify_systick_reg(peripheral.name.as_str(), register.name.as_str());
            let paired_addr = if flags & META_SPI_DATA != 0 || flags & META_SPI_STATUS != 0 {
                spi_sr_addr
            } else if flags & META_GPIO_BSRR != 0 {
                gpio_odr_addr
            } else {
                0
            };
            let w = register.width_bits / 8;
            let width: u64 = if w < 1 { 1 } else if w > 8 { 8 } else { w as u64 };
            let ghost prefix = base + periph_entries(*peripheral, ri as int);
            let mut index: u64 = 0;
            while index < width
                invariant
                    pi < ps@.len(),
                    ri < peripheral.registers@.len(),
                    *register == peripheral.registers@[ri as int],
                    width == reg_width(*register),
                    flags == spec_meta_flags(peripheral.name@, register.name@),
                    systick == spec_systick_reg(peripheral.name@, register.name@),
                    paired_addr == paired_of(*peripheral, flags),
                    index <= width,
                    mmio@ == entries_mmio(prefix + reg_entries(*peripheral, *register, index as nat)),
                    meta_as(register_meta@, prefix + reg_entries(*peripheral, *register, index as nat)),
                decreases width - index,
            {
                let addr = register.address.wrapping_add(index);
                let byte = (register.reset_value >> (8 * index)) as u8;
                let ghost es = prefix + reg_entries(*peripheral, *register, index as nat);
                let ghost e: RegByte = (addr, byte, (peripheral.name@, register.name@, index as u8, flags, systick, paired_addr));
                mmio.insert(addr, byte);
                let m = RegisterMeta {
                    peripheral: peripheral.name.clone(),
                    register: register.name.clone(),
                    byte_offset: index as u8,
                    flags,
                    systick,
                    paired_addr,
                };
                register_meta.insert(addr, m);
                proof {
                    lemma_entries_push(es, e);
                    assert(es.push(e) =~= prefix + reg_entries(*peripheral, *register, (index + 1) as nat));
                }
                index = index + 1;
            }
            proof {
                assert(periph_entries(*peripheral, ri + 1) == periph_entries(*peripheral, ri as int) + reg_entries(
                    *peripheral,
                    *register,
                    reg_width(*register),
                ));
                assert(prefix + reg_entries(*peripheral, *register, width as nat) =~= base + periph_entries(*peripheral, ri + 1));
            }
            ri = ri + 1;
        }
        proof {
            assert(all_entries(ps@, pi + 1) == base + periph_entries(*peripheral, peripheral.registers@.len() as int));
        }
        pi = pi + 1;
    }
}

impl<C: CpuCore<MachineBus>> Machine<C> {
    /// A machine running `cpu` on the target: a zero-filled block for every flash (read-only)
    /// and RAM region, every peripheral register byte at its reset value and described, the
    /// address-map features of the core's architecture, a stopped SysTick, the target's timers
    /// and RCC registers.
    pub fn new(cpu: C, target: TargetSpec) -> (r: Self)
        requires
            cpu.inv(),
        ensures
            r.wf(),
            r.spec_cpu() == cpu,
            r.spec_target() == target,
            blocks_as(r.spec_bus().memory@, region_blocks(target.memory_map@, target.memory_map@.len() as int)),
            r.spec_bus().flash_base == spec_flash_base(target.memory_map@),
            r.spec_bus().flash_alias_base == cpu.spec_arch().spec_memory_config().flash_alias_base,
            r.spec_bus().periph_bb_base == cpu.spec_arch().spec_memory_config().periph_bitband_base,
            r.spec_bus().periph_bb_alias_start == cpu.spec_arch().spec_memory_config().periph_bitband_alias_start,
            r.spec_bus().periph_bb_alias_end == cpu.spec_arch().spec_memory_config().periph_bitband_alias_end,
            r.spec_bus().mmio@ == entries_mmio(all_entries(target.peripherals@, target.peripherals@.len() as int)),
            meta_as(r.spec_bus().register_meta@, all_entries(target.peripherals@, target.peripherals@.len() as int)),
            r.spec_bus().serial_output@.len() == 0,
            r.spec_bus().mmio_writes@.len() == 0,
            r.spec_bus().systick == SystickState::new_state(target.systick_reload_divider),
            r.spec_bus().nvic_any_enabled == spec_nvic_any_enabled(r.spec_bus().mmio@),
            models_match(r.spec_timers(), target.peripherals@),
            r.spec_rcc() == spec_rcc_regs(target.peripherals@),
    {
        let arch_mem = cpu.architecture().memory_config();
        let flash_base = flash_base_of(&target.memory_map);
        let memory = build_memory(&target.memory_map);
        let mut mmio: HashMap<u64, u8> = HashMap::new();
        let mut register_meta: HashMap<u64, RegisterMeta> = HashMap::new();
        build_registers(&target.peripherals, &mut mmio, &mut register_meta);
        let timers = resolve_timer_models(&target);
        let rcc_regs = resolve_rcc_regs(&target);
        let any_enabled = nvic_any_enabled(&mmio);
        let systick = SystickState::new(target.systick_reload_divider);
        let bus = MachineBus {
            memory,
            flash_base,
            flash_alias_base: arch_mem.flash_alias_base,
            periph_bb_base: arch_mem.periph_bitband_base,
            periph_bb_alias_start: arch_mem.periph_bitband_alias_start,
            periph_bb_alias_end: arch_mem.periph_bitband_alias_end,
            mmio,
            register_meta,
            serial_output: Vec::new(),
            mmio_writes: Vec::new(),
            systick,
            nvic_any_enabled: any_enabled,
        };
        Machine { cpu, target, bus, timers, rcc_regs }
    }
}

} // verus!
