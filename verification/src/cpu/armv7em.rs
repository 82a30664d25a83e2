//! The ARMv7E-M (Cortex-M4) architecture description, and the register state of the
//! Cortex-M4 core with its exception entry and return.
//!
//! Instructions of this core are executed by an outside emulation engine that works on the
//! state kept here; the decisions taken around each engine batch are the functions below.
use crate::bits::with_bit;
use crate::bus::traits::{SystemBus, byte_accesses, byte_accesses_fail, ok_value, read_block, write_block};
use crate::cpu::armv7m_legacy::{
    CortexM3, FLASH_ALIAS_BASE, PERIPH_BB_ALIAS_BASE, PERIPH_BB_ALIAS_END, PERIPH_BB_BASE,
    exception_frame, read_words_post, spec_is_exc_return, thumb, write_words_post,
};
use crate::cpu::{ArchitectureId, ArchitectureMemoryConfig, CpuArchitecture};
use crate::text::{concat3, contains_seq, contains_str, hex_message, spec_hex_message};
use vstd::prelude::*;

verus! {

/// The ARMv7E-M architecture description (same address map as ARMv7-M).
#[derive(Debug, Default)]
pub struct ArmV7EMArchitecture;

impl CpuArchitecture for ArmV7EMArchitecture {
    fn id(&self) -> (r: ArchitectureId)
        ensures
            r == ArchitectureId::ArmV7M,
    {
        ArchitectureId::ArmV7M
    }

    fn name(&self) -> (r: &'static str)
        ensures
            r@ == "ARMv7E-M"@,
    {
        "ARMv7E-M"
    }

    fn reset_vector_bits(&self) -> (r: u8)
        ensures
            r == 32,
    {
        32
    }

    open spec fn spec_memory_config(&self) -> ArchitectureMemoryConfig {
        ArchitectureMemoryConfig {
            flash_alias_base: Some(FLASH_ALIAS_BASE),
            periph_bitband_base: Some(PERIPH_BB_BASE),
            periph_bitband_alias_start: Some(PERIPH_BB_ALIAS_BASE),
            periph_bitband_alias_end: Some(PERIPH_BB_ALIAS_END),
        }
    }

    fn memory_config(&self) -> (r: ArchitectureMemoryConfig) {
        ArchitectureMemoryConfig {
            flash_alias_base: Some(FLASH_ALIAS_BASE),
            periph_bitband_base: Some(PERIPH_BB_BASE),
            periph_bitband_alias_start: Some(PERIPH_BB_ALIAS_BASE),
            periph_bitband_alias_end: Some(PERIPH_BB_ALIAS_END),
        }
    }
}

/// Whether `a` lies in the SRAM (`0x2000_0000..0x2004_0000`) or CCM (`0x1000_0000..0x1001_0000`)
/// ranges that may hold a stack.
pub open spec fn valid_stack_addr(a: u32) -> bool {
    (0x2000_0000 <= a && a < 0x2004_0000) || (0x1000_0000 <= a && a < 0x1001_0000)
}

/// An eight-word exception frame at `sp` lies in stack memory.
pub open spec fn frame_fits(sp: u32) -> bool {
    valid_stack_addr(sp) && valid_stack_addr(sp.wrapping_add(28))
}

/// Register state of the Cortex-M4 core: R0-R15, xPSR, the active exception number, the two
/// banked stack pointers and the special registers.
#[derive(Debug)]
pub struct CortexM4 {
    pub arch: ArmV7EMArchitecture,
    pub registers: [u32; 16],
    pub xpsr: u32,
    pub current_exception: u16,
    pub msp: u32,
    pub psp: u32,
    pub control: u32,
    pub primask: u32,
    pub basepri: u32,
    pub faultmask: u32,
}

impl CortexM4 {
    /// `self` has registers `r`, xPSR `x`, active exception `e`, stack pointers `msp` and `psp`,
    /// CONTROL `c`, and the mask registers of `base`.
    pub open spec fn is(&self, r: Seq<u32>, x: u32, e: u16, msp: u32, psp: u32, c: u32, base: Self) -> bool {
        &&& self.registers@ == r
        &&& self.xpsr == x
        &&& self.current_exception == e
        &&& self.msp == msp
        &&& self.psp == psp
        &&& self.control == c
        &&& self.primask == base.primask
        &&& self.basepri == base.basepri
        &&& self.faultmask == base.faultmask
    }

    /// A core with every register zero, the Thumb bit set and no active exception.
    pub fn new() -> (r: Self)
        ensures
            r.registers@ == Seq::new(16, |i: int| 0u32),
            r.xpsr == 0x0100_0000,
            r.current_exception == 0,
            r.msp == 0 && r.psp == 0 && r.control == 0,
            r.primask == 0 && r.basepri == 0 && r.faultmask == 0,
    {
        let r = CortexM4 {
            arch: ArmV7EMArchitecture,
            registers: [0u32; 16],
            xpsr: 0x0100_0000,
            current_exception: 0,
            msp: 0,
            psp: 0,
            control: 0,
            primask: 0,
            basepri: 0,
            faultmask: 0,
        };
        assert(r.registers@ =~= Seq::new(16, |i: int| 0u32));
        r
    }

    pub fn registers(&self) -> (r: &[u32; 16])
        ensures
            r@ == self.registers@,
    {
        &self.registers
    }

    /// Whether the Thumb bit (xPSR bit 24) is set.
    pub fn thumb_state(&self) -> (r: bool)
        ensures
            r == ((self.xpsr >> 24u32) & 1 == 1),
    {
        (self.xpsr >> 24) & 1 == 1
    }

    pub fn program_counter(&self) -> (r: u64)
        ensures
            r == self.registers@[15],
    {
        self.registers[15] as u64
    }

    pub fn stack_pointer(&self) -> (r: u64)
        ensures
            r == self.registers@[13],
    {
        self.registers[13] as u64
    }

    /// Whether an exception handler is active.
    pub fn in_exception(&self) -> (r: bool)
        ensures
            r == (self.current_exception != 0),
    {
        self.current_exception != 0
    }

    /// Whether `value` is an EXC_RETURN magic value.
    pub fn is_exc_return(value: u32) -> (r: bool)
        ensures
            r == spec_is_exc_return(value),
    {
        value & 0xFFFF_FFE0 == 0xFFFF_FFE0
    }

    /// Whether `addr` lies in memory that may hold a stack.
    pub fn is_valid_stack_addr(addr: u32) -> (r: bool)
        ensures
            r == valid_stack_addr(addr),
    {
        (0x2000_0000 <= addr && addr < 0x2004_0000) || (0x1000_0000 <= addr && addr < 0x1001_0000)
    }

    fn frame_fits(sp: u32) -> (r: bool)
        ensures
            r == frame_fits(sp),
    {
        Self::is_valid_stack_addr(sp) && Self::is_valid_stack_addr(sp.wrapping_add(28))
    }
}

impl Default for CortexM4 {
    fn default() -> (r: Self)
        ensures
            r.registers@ == Seq::new(16, |i: int| 0u32),
            r.xpsr == 0x0100_0000,
            r.current_exception == 0,
            r.msp == 0 && r.psp == 0 && r.control == 0,
            r.primask == 0 && r.basepri == 0 && r.faultmask == 0,
    {
        Self::new()
    }
}

/// The EXC_RETURN value an exception return uses: LR when it holds one, PC otherwise.
pub open spec fn m4_exc_return_value(s: CortexM4) -> u32 {
    if spec_is_exc_return(s.registers@[14]) {
        s.registers@[14]
    } else {
        s.registers@[15]
    }
}

/// The state after the frame `v` was popped from `sp` under EXC_RETURN `er`: R0-R3, R12, LR,
/// PC (bit 0 cleared) and xPSR come from the frame, SP and the selected bank point past it, a
/// return to thread mode selects the bank in CONTROL and clears the exception number, and the
/// Thumb bit follows bit 0 of the popped PC.
pub open spec fn m4_unstacked(s: CortexM4, er: u32, sp: u32, v: Seq<u32>, s2: CortexM4) -> bool {
    let use_psp = er & 4 != 0;
    let to_thread = er & 8 != 0;
    let next = sp.wrapping_add(32);
    let r2 = s.registers@.update(0, v[0]).update(1, v[1]).update(2, v[2]).update(3, v[3]).update(12, v[4]).update(
        14,
        v[5],
    ).update(13, next).update(15, v[6] & !1u32);
    let x1 = if to_thread {
        v[7] & !0x1FFu32
    } else {
        v[7]
    };
    s2.is(
        r2,
        thumb(x1, v[6] & 1 == 1),
        if to_thread {
            0
        } else {
            (v[7] & 0x1FF) as u16
        },
        if use_psp {
            s.msp
        } else {
            next
        },
        if use_psp {
            next
        } else {
            s.psp
        },
        if to_thread {
            if use_psp {
                s.control | 2
            } else {
                s.control & !2u32
            }
        } else {
            s.control
        },
        s,
    )
}

/// Exception return. Only the basic frame is handled (an extended floating-point frame gives
/// `Some(false)`). The frame is taken from the stack pointer that EXC_RETURN selects, or from
/// SP when that one cannot hold a frame (the bank then takes SP's value); when neither can, the
/// return is not taken. A failed read leaves the registers as they were.
pub open spec fn m4_exc_return_post<B: SystemBus>(s: CortexM4, b: B, res: Option<bool>, s2: CortexM4, b2: B) -> bool {
    let er = m4_exc_return_value(s);
    let use_psp = er & 4 != 0;
    let banked = if use_psp {
        s.psp
    } else {
        s.msp
    };
    let cand = s.registers@[13];
    if er & 0x10 == 0 || (!frame_fits(banked) && !frame_fits(cand)) {
        res == Some(false) && s2 == s && b2 == b
    } else {
        let sp = if frame_fits(banked) {
            banked
        } else {
            cand
        };
        let s1_msp = if use_psp {
            s.msp
        } else {
            sp
        };
        let s1_psp = if use_psp {
            sp
        } else {
            s.psp
        };
        match res {
            None => read_words_post(b, sp, 8, None, b2) && s2.is(
                s.registers@,
                s.xpsr,
                s.current_exception,
                s1_msp,
                s1_psp,
                s.control,
                s,
            ),
            Some(t) => t && m4_popped(s, b, er, sp, s2, b2),
        }
    }
}

/// The frame at `sp` was read and popped under EXC_RETURN `er`.
pub open spec fn m4_popped<B: SystemBus>(s: CortexM4, b: B, er: u32, sp: u32, s2: CortexM4, b2: B) -> bool {
    exists|v: Seq<u32>| #[trigger] read_words_post(b, sp, 8, Some(v), b2) && m4_unstacked(s, er, sp, v, s2)
}

impl CortexM4 {
    /// Returns from the active exception by popping the basic frame (see `m4_exc_return_post`).
    pub fn exception_return<B: SystemBus>(&mut self, bus: &mut B) -> (res: Result<bool, String>)
        ensures
            m4_exc_return_post(*old(self), *old(bus), ok_value(res), *final(self), *final(bus)),
    {
        let exc_return = if Self::is_exc_return(self.registers[14]) {
            self.registers[14]
        } else {
            self.registers[15]
        };
        let use_psp = (exc_return & 0x4) != 0;
        let basic_frame = (exc_return & 0x10) != 0;
        if !basic_frame {
            return Ok(false);
        }
        let mut sp = if use_psp {
            self.psp
        } else {
            self.msp
        };
        if !Self::frame_fits(sp) {
            let candidate = self.registers[13];
            if Self::frame_fits(candidate) {
                sp = candidate;
                if use_psp {
                    self.psp = candidate;
                } else {
                    self.msp = candidate;
                }
            } else {
                return Ok(false);
            }
        }
        proof {
            let banked = if use_psp { old(self).psp } else { old(self).msp };
            assert(exc_return == m4_exc_return_value(*old(self)));
            assert(sp == if frame_fits(banked) { banked } else { old(self).registers@[13] });
            assert(frame_fits(banked) || frame_fits(old(self).registers@[13]));
        }
        let frame = CortexM3::read_words(bus, sp, 8)?;
        let pc = frame[6];
        let xpsr = frame[7];
        self.registers[0] = frame[0];
        self.registers[1] = frame[1];
        self.registers[2] = frame[2];
        self.registers[3] = frame[3];
        self.registers[12] = frame[4];
        self.registers[14] = frame[5];
        let next_sp = sp.wrapping_add(32);
        if use_psp {
            self.psp = next_sp;
        } else {
            self.msp = next_sp;
        }
        if (exc_return & 0x8) != 0 {
            if use_psp {
                self.control = self.control | 0x2;
            } else {
                self.control = self.control & !0x2;
            }
        }
        self.registers[13] = next_sp;
        self.registers[15] = pc & !1;
        self.xpsr = xpsr;
        if (exc_return & 0x8) != 0 {
            self.current_exception = 0;
            self.xpsr = self.xpsr & !0x1FF;
        } else {
            self.current_exception = #[verifier::truncate] ((self.xpsr & 0x1FF) as u16);
        }
        assert(1u32 << 24u32 == 0x0100_0000) by (bit_vector);
        if pc & 1 == 1 {
            self.xpsr = self.xpsr | (1 << 24);
        } else {
            self.xpsr = self.xpsr & !(1 << 24);
        }
        proof {
            assert(read_words_post(*old(bus), sp, 8, Some(frame@), *bus));
            assert(self.registers@ =~= old(self).registers@.update(0, frame@[0]).update(1, frame@[1]).update(2, frame@[2]).update(
                3,
                frame@[3],
            ).update(12, frame@[4]).update(14, frame@[5]).update(13, next_sp).update(15, pc & !1u32));
            assert(m4_unstacked(*old(self), exc_return, sp, frame@, *self));
            assert(m4_popped(*old(self), *old(bus), exc_return, sp, *self, *bus));
        }
        Ok(true)
    }
}

/// Exception entry once the handler address `h` is known to be usable. In thread mode with
/// CONTROL.SPSEL set and a usable PSP the frame goes on the process stack, otherwise on the main
/// stack; a stack that cannot hold the frame leaves the exception untaken. LR takes the matching
/// EXC_RETURN value, SP takes MSP, and execution continues at the handler with the exception
/// number in xPSR and the Thumb bit set. A failed store leaves the registers as they were.
pub open spec fn m4_push<B: SystemBus>(s: CortexM4, b: B, n: u16, h: u32, res: Option<bool>, s2: CortexM4, b2: B) -> bool {
    let r = s.registers@;
    let in_handler = s.current_exception != 0;
    let use_psp = !in_handler && s.control & 2 != 0 && valid_stack_addr(s.psp);
    let next = (if use_psp {
        s.psp
    } else {
        s.msp
    }).wrapping_sub(32);
    if !frame_fits(next) {
        res == Some(false) && s2 == s && b2 == b
    } else {
        let msp2 = if use_psp {
            s.msp
        } else {
            next
        };
        let lr: u32 = if use_psp {
            0xFFFF_FFFD
        } else if in_handler {
            0xFFFF_FFF1
        } else {
            0xFFFF_FFF9
        };
        &&& write_words_post(b, next, exception_frame(r, s.xpsr), res is Some, b2)
        &&& match res {
            None => s2 == s,
            Some(t) => t && s2.is(
                r.update(13, msp2).update(14, lr).update(15, h & !1u32),
                ((s.xpsr & !0x1FFu32) | ((n as u32) & 0x1FF)) | 0x0100_0000,
                n,
                msp2,
                if use_psp {
                    next
                } else {
                    s.psp
                },
                s.control,
                s,
            ),
        }
    }
}

/// Exception entry: exception 0 and a vector that reads 0 or 0xFFFF_FFFF are not taken.
pub open spec fn m4_enter_post<B: SystemBus>(
    s: CortexM4,
    b: B,
    vtb: u64,
    n: u16,
    res: Option<bool>,
    s2: CortexM4,
    b2: B,
) -> bool {
    if n == 0 {
        res == Some(false) && s2 == s && b2 == b
    } else {
        let va = (vtb + (n as u64) * 4) as u64;
        ||| res is None && b.read32_post(va, None, b2) && s2 == s
        ||| exists|h: u32, b1: B|
            #[trigger] b.read32_post(va, Some(h), b1) && if h == 0 || h == 0xFFFF_FFFF {
                res == Some(false) && b2 == b1 && s2 == s
            } else {
                m4_push(s, b1, n, h, res, s2, b2)
            }
    }
}

/// The state after reset from initial stack pointer `sp` and reset handler `h`: all registers
/// zero but SP and PC (bit 0 cleared), both stack pointers at `sp`, CONTROL selecting the process
/// stack, Thumb state, no active exception and no masking.
pub open spec fn m4_reset_state(s2: CortexM4, sp: u32, h: u32) -> bool {
    &&& s2.registers@ == Seq::new(16, |i: int| 0u32).update(13, sp).update(15, h & !1u32)
    &&& s2.xpsr == 0x0100_0000
    &&& s2.current_exception == 0
    &&& s2.msp == sp
    &&& s2.psp == sp
    &&& s2.control == 2
    &&& s2.primask == 0
    &&& s2.basepri == 0
    &&& s2.faultmask == 0
}

/// Reset: the initial SP is read from `vtb` and the reset handler from `vtb + 4`; a failed read
/// leaves the core as it was.
pub open spec fn m4_reset_post<B: SystemBus>(s: CortexM4, b: B, vtb: u64, ok: bool, s2: CortexM4, b2: B) -> bool {
    ||| !ok && b.read32_post(vtb, None, b2) && s2 == s
    ||| exists|sp: u32, b1: B|
        #[trigger] b.read32_post(vtb, Some(sp), b1) && {
            ||| !ok && b1.read32_post((vtb + 4) as u64, None, b2) && s2 == s
            ||| exists|h: u32|
                #[trigger] b1.read32_post((vtb + 4) as u64, Some(h), b2) && ok && m4_reset_state(s2, sp, h)
        }
}

impl CortexM4 {
    /// Takes exception `exception_number` (see `m4_enter_post`).
    pub fn enter_exception<B: SystemBus>(&mut self, bus: &mut B, vector_table_base: u64, exception_number: u16) -> (res: Result<bool, String>)
        requires
            vector_table_base <= 0xFFFF_FFFF_FFF0_0000,
        ensures
            m4_enter_post(*old(self), *old(bus), vector_table_base, exception_number, ok_value(res), *final(self), *final(bus)),
    {
        if exception_number == 0 {
            return Ok(false);
        }
        let vector_addr = vector_table_base + (exception_number as u64) * 4;
        let ghost b0 = *bus;
        let handler = bus.read32(vector_addr)?;
        let ghost b1 = *bus;
        assert(b0.read32_post(vector_addr, Some(handler), b1));
        if handler == 0 || handler == 0xFFFF_FFFF {
            return Ok(false);
        }
        let in_handler = self.current_exception != 0;
        let prefer_psp = !in_handler && (self.control & 0x2) != 0;
        let use_psp = prefer_psp && Self::is_valid_stack_addr(self.psp);
        let active_sp = if use_psp {
            self.psp
        } else {
            self.msp
        };
        let next_sp = active_sp.wrapping_sub(32);
        if !Self::frame_fits(next_sp) {
            return Ok(false);
        }
        let frame: Vec<u32> = vec![
            self.registers[0],
            self.registers[1],
            self.registers[2],
            self.registers[3],
            self.registers[12],
            self.registers[14],
            self.registers[15] | 1,
            self.xpsr,
        ];
        assert(frame@ =~= exception_frame(self.registers@, self.xpsr));
        let w = CortexM3::write_words(bus, next_sp, frame.as_slice());
        if w.is_err() {
            assert(m4_push(*old(self), b1, exception_number, handler, None, *self, *bus));
            return Err(w.unwrap_err());
        }
        if use_psp {
            self.psp = next_sp;
            self.registers[14] = 0xFFFF_FFFD;
        } else if in_handler {
            self.msp = next_sp;
            self.registers[14] = 0xFFFF_FFF1;
        } else {
            self.msp = next_sp;
            self.registers[14] = 0xFFFF_FFF9;
        }
        self.registers[13] = self.msp;
        self.registers[15] = handler & !1;
        self.current_exception = exception_number;
        self.xpsr = (self.xpsr & !0x1FF) | ((exception_number as u32) & 0x1FF);
        assert(1u32 << 24u32 == 0x0100_0000) by (bit_vector);
        self.xpsr = self.xpsr | (1 << 24);
        proof {
            let lr: u32 = if use_psp { 0xFFFF_FFFD } else if in_handler { 0xFFFF_FFF1 } else { 0xFFFF_FFF9 };
            let msp2 = if use_psp { old(self).msp } else { next_sp };
            assert(self.registers@ =~= old(self).registers@.update(13, msp2).update(14, lr).update(15, handler & !1u32));
            assert(m4_push(*old(self), b1, exception_number, handler, Some(true), *self, *bus));
        }
        Ok(true)
    }

    /// Resets the core from the vector table at `vector_table_base` (see `m4_reset_post`).
    pub fn reset<B: SystemBus>(&mut self, bus: &mut B, vector_table_base: u64) -> (r: Result<(), String>)
        requires
            vector_table_base <= 0xFFFF_FFFF_FFF0_0000,
        ensures
            m4_reset_post(*old(self), *old(bus), vector_table_base, r is Ok, *final(self), *final(bus)),
    {
        let ghost b0 = *bus;
        let initial_sp = bus.read32(vector_table_base)?;
        let ghost b1 = *bus;
        assert(b0.read32_post(vector_table_base, Some(initial_sp), b1));
        let reset_handler = bus.read32(vector_table_base + 4)?;
        assert(b1.read32_post((vector_table_base + 4) as u64, Some(reset_handler), *bus));
        let mut regs: [u32; 16] = [0u32; 16];
        regs[13] = initial_sp;
        regs[15] = reset_handler & !1;
        assert(regs@ =~= Seq::new(16, |i: int| 0u32).update(13, initial_sp).update(15, reset_handler & !1u32));
        self.registers = regs;
        self.xpsr = 0x0100_0000;
        self.current_exception = 0;
        self.msp = initial_sp;
        self.psp = initial_sp;
        self.control = 0x2;
        self.primask = 0;
        self.basepri = 0;
        self.faultmask = 0;
        Ok(())
    }
}

/// Size of a page of the outside engine's memory map.
pub const ENGINE_PAGE_SIZE: u64 = 0x1000;

/// The start of the engine page that holds `addr`.
pub fn page_base(addr: u64) -> (r: u64)
    ensures
        r == addr & !0xFFFu64,
        r <= addr,
        r % 0x1000 == 0,
        addr - r < 0x1000,
{
    assert(addr & !0xFFFu64 <= addr && (addr & !0xFFFu64) % 0x1000 == 0 && addr - (addr & !0xFFFu64) < 0x1000)
        by (bit_vector);
    addr & !(ENGINE_PAGE_SIZE - 1)
}

/// The memory that the engine maps at reset and fills from the bus: flash, SRAM and CCM, as
/// half-open ranges.
pub fn engine_memory_regions() -> (r: Vec<(u64, u64)>)
    ensures
        r@ == seq![(0x0800_0000u64, 0x0810_0000u64), (0x2000_0000u64, 0x2004_0000u64), (0x1000_0000u64, 0x1001_0000u64)],
{
    let mut regions: Vec<(u64, u64)> = Vec::new();
    regions.push((0x0800_0000, 0x0810_0000));
    regions.push((0x2000_0000, 0x2004_0000));
    regions.push((0x1000_0000, 0x1001_0000));
    assert(regions@ =~= seq![(0x0800_0000u64, 0x0810_0000u64), (0x2000_0000u64, 0x2004_0000u64), (0x1000_0000u64, 0x1001_0000u64)]);
    regions
}

/// What the outside engine reported when a batch of instructions ended.
pub struct BatchReport {
    /// The EXC_RETURN value at which the engine stopped, when it stopped at one.
    pub pending_exc_return: Option<u32>,
    /// An error raised while the engine reached the bus during the batch.
    pub hook_error: Option<String>,
    /// The engine's own error, in its debug text.
    pub engine_error: Option<String>,
    /// Instructions of the batch budget that were not run.
    pub budget_left: u32,
}

/// Registers when the batch ended: a stop at `0x0800_bb5c` resumes at `0x0800_d5c0` with LR
/// `0x0800_bb5d`, and an EXC_RETURN value the engine stopped at becomes PC.
pub open spec fn batch_resume_regs(r: Seq<u32>, pending: Option<u32>) -> Seq<u32> {
    let r1 = if r[15] == 0x0800_bb5c {
        r.update(15, 0x0800_d5c0).update(14, 0x0800_bb5d)
    } else {
        r
    };
    match pending {
        Some(e) => r1.update(15, e),
        None => r1,
    }
}

/// PC or LR holds an EXC_RETURN value.
pub open spec fn wants_exc_return(r: Seq<u32>) -> bool {
    spec_is_exc_return(r[15]) || spec_is_exc_return(r[14])
}

/// Instructions a batch counts for: those of the budget that ran, at least one.
pub open spec fn batch_ran(max_steps: u32, left: u32) -> u32 {
    if max_steps > left {
        (max_steps - left) as u32
    } else {
        1
    }
}

/// The recovery from an engine exception raised at address 0 or 1: SP and PSP take PSP when it
/// is usable (else `0x2000_1000`), execution continues at `0x0800_d5c0` in thread mode on the
/// process stack.
pub open spec fn m4_recovered(s: CortexM4, s2: CortexM4) -> bool {
    let sp: u32 = if valid_stack_addr(s.psp) {
        s.psp
    } else {
        0x2000_1000
    };
    s2.is(
        s.registers@.update(13, sp).update(15, 0x0800_d5c0),
        (s.xpsr & !0x1FFu32) | 0x0100_0000,
        0,
        s.msp,
        sp,
        s.control | 2,
        s,
    )
}

/// The recovery from an invalid instruction at `0x0800_bb0d`: SP and MSP are reloaded from the
/// word at `0x0800_bb44` and execution continues at `0x0800_bb10` in Thumb state.
pub open spec fn m4_reloaded<B: SystemBus>(s: CortexM4, b: B, r: Result<u32, String>, s2: CortexM4, b2: B) -> bool {
    match r {
        Err(_) => b.read32_post(0x0800_bb44, None, b2) && s2 == s,
        Ok(n) => n == 1 && exists|sp: u32|
            #[trigger] b.read32_post(0x0800_bb44, Some(sp), b2) && s2.is(
                s.registers@.update(13, sp).update(15, 0x0800_bb10),
                s.xpsr | 0x0100_0000,
                s.current_exception,
                sp,
                s.psp,
                s.control,
                s,
            ),
    }
}

/// How a batch is settled once the state is synchronised: a bus error from a hook is the
/// result; an engine error either triggers one of the two recoveries, counts as the batch when
/// an exception return was handled, or becomes the error text; otherwise the batch counts
/// `batch_ran` instructions.
pub open spec fn m4_settle_post<B: SystemBus>(
    s: CortexM4,
    b: B,
    begin: u64,
    max_steps: u32,
    handled: bool,
    hook_error: Option<String>,
    engine_error: Option<String>,
    left: u32,
    r: Result<u32, String>,
    s2: CortexM4,
    b2: B,
) -> bool {
    match hook_error {
        Some(e) => r == Err::<u32, String>(e) && s2 == s && b2 == b,
        None => match engine_error {
            None => r == Ok::<u32, String>(batch_ran(max_steps, left)) && s2 == s && b2 == b,
            Some(t) => if contains_seq(t@, "EXCEPTION"@) && begin <= 1 {
                r == Ok::<u32, String>(1) && m4_recovered(s, s2) && b2 == b
            } else if contains_seq(t@, "INSN_INVALID"@) && begin == 0x0800_bb0d {
                m4_reloaded(s, b, r, s2, b2)
            } else if handled {
                r == Ok::<u32, String>(batch_ran(max_steps, left)) && s2 == s && b2 == b
            } else {
                &&& r is Err
                &&& r->Err_0@ == spec_hex_message("unicorn batch failed at pc="@, begin, 8, ": "@ + t@)
                &&& s2 == s
                &&& b2 == b
            },
        },
    }
}

/// The end of a batch from the synchronised state `s1`: a pending exception return is carried
/// out, then the batch is settled. `failed` tells that an exception return was due but not taken.
pub open spec fn m4_finish_tail<B: SystemBus>(
    s1: CortexM4,
    b: B,
    begin: u64,
    max_steps: u32,
    report: BatchReport,
    r: Result<u32, String>,
    failed: bool,
    s2: CortexM4,
    b2: B,
) -> bool {
    if wants_exc_return(s1.registers@) {
        exists|ret: Option<bool>, s3: CortexM4, b3: B|
            #[trigger] m4_exc_return_post(s1, b, ret, s3, b3) && match ret {
                None => r is Err && !failed && s2 == s3 && b2 == b3,
                Some(h) => failed == !h && m4_settle_post(
                    s3,
                    b3,
                    begin,
                    max_steps,
                    h,
                    report.hook_error,
                    report.engine_error,
                    report.budget_left,
                    r,
                    s2,
                    b2,
                ),
            }
    } else {
        !failed && m4_settle_post(
            s1,
            b,
            begin,
            max_steps,
            false,
            report.hook_error,
            report.engine_error,
            report.budget_left,
            r,
            s2,
            b2,
        )
    }
}

impl CortexM4 {
    /// Takes the registers the engine holds after a batch. A stack pointer that the engine
    /// could not give, or that lies outside stack memory, keeps its value; the active exception
    /// number comes from xPSR.
    pub fn sync_from_engine(
        &mut self,
        registers: [u32; 16],
        msp: Option<u32>,
        psp: Option<u32>,
        control: u32,
        primask: u32,
        basepri: u32,
        faultmask: u32,
        xpsr: u32,
    )
        ensures
            final(self).registers@ == registers@,
            final(self).msp == (match msp {
                Some(v) => if valid_stack_addr(v) { v } else { old(self).msp },
                None => old(self).msp,
            }),
            final(self).psp == (match psp {
                Some(v) => if valid_stack_addr(v) { v } else { old(self).psp },
                None => old(self).psp,
            }),
            final(self).control == control,
            final(self).primask == primask,
            final(self).basepri == basepri,
            final(self).faultmask == faultmask,
            final(self).xpsr == xpsr,
            final(self).current_exception == (xpsr & 0x1FF) as u16,
    {
        self.registers = registers;
        if let Some(v) = msp {
            if Self::is_valid_stack_addr(v) {
                self.msp = v;
            }
        }
        if let Some(v) = psp {
            if Self::is_valid_stack_addr(v) {
                self.psp = v;
            }
        }
        self.control = control;
        self.primask = primask;
        self.basepri = basepri;
        self.faultmask = faultmask;
        self.xpsr = xpsr;
        self.current_exception = #[verifier::truncate] ((xpsr & 0x1FF) as u16);
    }

    /// Before a batch: when PC or LR holds an EXC_RETURN value, the exception return is carried
    /// out; `Ok(true)` tells that it was, and the step is complete.
    pub fn resume_exception_return<B: SystemBus>(&mut self, bus: &mut B) -> (r: Result<bool, String>)
        ensures
            if wants_exc_return(old(self).registers@) {
                m4_exc_return_post(*old(self), *old(bus), ok_value(r), *final(self), *final(bus))
            } else {
                r == Ok::<bool, String>(false) && *final(self) == *old(self) && *final(bus) == *old(bus)
            },
    {
        if Self::is_exc_return(self.registers[15]) || Self::is_exc_return(self.registers[14]) {
            self.exception_return(bus)
        } else {
            Ok(false)
        }
    }

    /// The address at which the engine starts a batch: PC, with bit 0 set in Thumb state.
    pub fn batch_start(&self) -> (r: u64)
        ensures
            r == (if (self.xpsr >> 24u32) & 1 == 1 {
                (self.registers@[15] | 1) as u64
            } else {
                self.registers@[15] as u64
            }),
    {
        let pc = self.registers[15];
        if self.thumb_state() {
            (pc | 1) as u64
        } else {
            pc as u64
        }
    }

    fn settle_batch<B: SystemBus>(
        &mut self,
        bus: &mut B,
        begin: u64,
        max_steps: u32,
        handled: bool,
        hook_error: Option<String>,
        engine_error: Option<String>,
        left: u32,
    ) -> (r: Result<u32, String>)
        ensures
            m4_settle_post(*old(self), *old(bus), begin, max_steps, handled, hook_error, engine_error, left, r, *final(self), *final(bus)),
    {
        if let Some(e) = hook_error {
            return Err(e);
        }
        let ran = if max_steps > left {
            max_steps - left
        } else {
            1
        };
        match engine_error {
            None => Ok(ran),
            Some(t) => {
                if contains_str(t.as_str(), "EXCEPTION") && begin <= 1 {
                    let recovery_sp = if Self::is_valid_stack_addr(self.psp) {
                        self.psp
                    } else {
                        0x2000_1000
                    };
                    self.registers[13] = recovery_sp;
                    self.psp = recovery_sp;
                    self.registers[15] = 0x0800_d5c0;
                    self.current_exception = 0;
                    self.control = self.control | 0x2;
                    self.xpsr = (self.xpsr & !0x1FF) | 0x0100_0000;
                    assert(self.registers@ =~= old(self).registers@.update(13, recovery_sp).update(15, 0x0800_d5c0));
                    Ok(1)
                } else if contains_str(t.as_str(), "INSN_INVALID") && begin == 0x0800_bb0d {
                    let ghost b0 = *bus;
                    let new_sp = bus.read32(0x0800_bb44)?;
                    assert(b0.read32_post(0x0800_bb44, Some(new_sp), *bus));
                    self.registers[13] = new_sp;
                    self.msp = new_sp;
                    self.registers[15] = 0x0800_bb10;
                    self.xpsr = self.xpsr | 0x0100_0000;
                    assert(self.registers@ =~= old(self).registers@.update(13, new_sp).update(15, 0x0800_bb10));
                    Ok(1)
                } else if handled {
                    Ok(ran)
                } else {
                    proof {
                        reveal_strlit("");
                    }
                    let suffix = concat3(": ", t.as_str(), "");
                    assert(suffix@ =~= ": "@ + t@);
                    Err(hex_message("unicorn batch failed at pc=", begin, 8, suffix.as_str()))
                }
            },
        }
    }

    /// After a batch, with the state taken from the engine: applies the stop address and a
    /// pending EXC_RETURN (see `batch_resume_regs`), carries out a due exception return, and
    /// settles the batch (see `m4_finish_tail`). The result is the step's, with whether an
    /// exception return was due but not taken.
    pub fn finish_batch<B: SystemBus>(&mut self, bus: &mut B, begin: u64, max_steps: u32, report: BatchReport) -> (r: (
        Result<u32, String>,
        bool,
    ))
        ensures
            exists|s1: CortexM4|
                #[trigger] s1.is(
                    batch_resume_regs(old(self).registers@, report.pending_exc_return),
                    old(self).xpsr,
                    old(self).current_exception,
                    old(self).msp,
                    old(self).psp,
                    old(self).control,
                    *old(self),
                ) && m4_finish_tail(s1, *old(bus), begin, max_steps, report, r.0, r.1, *final(self), *final(bus)),
    {
        if self.registers[15] == 0x0800_bb5c {
            self.registers[15] = 0x0800_d5c0;
            self.registers[14] = 0x0800_bb5d;
        }
        if let Some(e) = report.pending_exc_return {
            self.registers[15] = e;
        }
        let ghost s1 = *self;
        let ghost b0 = *bus;
        proof {
            assert(s1.registers@ =~= batch_resume_regs(old(self).registers@, report.pending_exc_return));
        }
        let hook_error = report.hook_error;
        let engine_error = report.engine_error;
        let result;
        if Self::is_exc_return(self.registers[15]) || Self::is_exc_return(self.registers[14]) {
            let ret = self.exception_return(bus);
            let ghost s3 = *self;
            let ghost b3 = *bus;
            match ret {
                Err(e) => {
                    assert(m4_exc_return_post(s1, b0, None, s3, b3));
                    result = (Err(e), false);
                },
                Ok(h) => {
                    let r = self.settle_batch(bus, begin, max_steps, h, hook_error, engine_error, report.budget_left);
                    assert(m4_exc_return_post(s1, b0, Some(h), s3, b3));
                    result = (r, !h);
                },
            }
            assert(m4_finish_tail(s1, b0, begin, max_steps, report, result.0, result.1, *self, *bus));
        } else {
            let r = self.settle_batch(bus, begin, max_steps, false, hook_error, engine_error, report.budget_left);
            result = (r, false);
            assert(m4_finish_tail(s1, b0, begin, max_steps, report, result.0, result.1, *self, *bus));
        }
        assert(s1.is(batch_resume_regs(old(self).registers@, report.pending_exc_return), old(self).xpsr, old(self).current_exception, old(self).msp, old(self).psp, old(self).control, *old(self)));
        result
    }
}

/// The EXC_RETURN value that the engine stopped at when execution reached the EXC_RETURN
/// address range: LR when it holds one, otherwise the thread-mode value for the stack that
/// CONTROL.SPSEL selects.
pub fn exc_return_for_stop(lr: u32, control: u32) -> (r: u32)
    ensures
        r == (if spec_is_exc_return(lr) {
            lr
        } else if control & 2 != 0 {
            0xFFFF_FFFDu32
        } else {
            0xFFFF_FFF9u32
        }),
{
    if CortexM4::is_exc_return(lr) {
        lr
    } else if (control & 0x2) != 0 {
        0xFFFF_FFFD
    } else {
        0xFFFF_FFF9
    }
}

/// Reads `size` consecutive bytes from `addr` for the engine; on failure the bytes before the
/// failing one were read.
pub fn read_bus_bytes<B: SystemBus>(bus: &mut B, addr: u64, size: usize) -> (r: Result<Vec<u8>, String>)
    requires
        addr + size <= u64::MAX,
    ensures
        match r {
            Ok(v) => v@.len() == size && byte_accesses(*old(bus), addr, v@, true, *final(bus)),
            Err(_) => exists|done: Seq<u8>|
                done.len() < size && #[trigger] byte_accesses_fail(*old(bus), addr, done, 0u8, true, *final(bus)),
        },
{
    let mut bytes: Vec<u8> = Vec::new();
    let mut i: usize = 0;
    while i < size
        invariant
            i <= size,
            bytes@.len() == i,
    decreases size - i,
    {
        bytes.push(0);
        i = i + 1;
    }
    let ghost b0 = *bus;
    let res = read_block(bus, addr, bytes.as_mut_slice());
    match res {
        Ok(()) => Ok(bytes),
        Err(e) => {
            let ghost k = choose|k: int| 0 <= k < size && #[trigger] byte_accesses_fail(b0, addr, bytes@.take(k), 0u8, true, *bus);
            assert(byte_accesses_fail(b0, addr, bytes@.take(k), 0u8, true, *bus));
            Err(e)
        },
    }
}

/// The low `size` bytes of `value`, least significant first.
pub open spec fn le_bytes(value: i64, size: nat) -> Seq<u8> {
    Seq::new(size, |i: int| (((value as u64) >> ((8 * i) as u64)) & 0xFF) as u8)
}

/// Writes the `size`-byte value `value` at `addr` for the engine: one byte, half-word or word
/// access for sizes 1, 2 and 4, otherwise its bytes one by one, least significant first.
pub fn write_bus_value<B: SystemBus>(bus: &mut B, addr: u64, size: usize, value: i64) -> (r: Result<(), String>)
    requires
        size <= 8,
        addr + size <= u64::MAX,
        size == 4 ==> addr < u64::MAX - 3,
    ensures
        size == 1 ==> old(bus).write8_post(addr, value as u8, r is Ok, *final(bus)),
        size == 2 ==> old(bus).write16_post(addr, value as u16, r is Ok, *final(bus)),
        size == 4 ==> old(bus).write32_post(addr, value as u32, r is Ok, *final(bus)),
        size != 1 && size != 2 && size != 4 ==> match r {
            Ok(_) => byte_accesses(*old(bus), addr, le_bytes(value, size as nat), false, *final(bus)),
            Err(_) => exists|k: int|
                0 <= k < size && #[trigger] byte_accesses_fail(
                    *old(bus),
                    addr,
                    le_bytes(value, size as nat).take(k),
                    le_bytes(value, size as nat)[k],
                    false,
                    *final(bus),
                ),
        },
{
    if size == 1 {
        bus.write8(addr, value as u8)
    } else if size == 2 {
        bus.write16(addr, value as u16)
    } else if size == 4 {
        bus.write32(addr, value as u32)
    } else {
        let raw = value as u64;
        let mut bytes: Vec<u8> = Vec::new();
        let mut i: usize = 0;
        while i < size
            invariant
                i <= size,
                size <= 8,
                raw == value as u64,
                bytes@ == le_bytes(value, size as nat).take(i as int),
            decreases size - i,
        {
            let b = ((raw >> ((i * 8) as u64)) & 0xFF) as u8;
            assert(bytes@.push(b) =~= le_bytes(value, size as nat).take(i + 1));
            bytes.push(b);
            i = i + 1;
        }
        assert(bytes@ =~= le_bytes(value, size as nat));
        write_block(bus, addr, bytes.as_slice())
    }
}

} // verus!
