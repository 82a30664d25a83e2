//! The SysTick timer of the core.
use vstd::prelude::*;

verus! {

/// Which SysTick register an access reaches.
#[derive(Debug, Clone, Copy, PartialEq, Eq, Structural)]
pub enum SystickReg {
    Ctrl,
    Load,
    Val,
    Calib,
}

/// SysTick: control (CSR), reload (RVR), current value (CVR) and the COUNTFLAG bit.
/// The reload value is divided by `reload_divider` (at least 1), which scales emulated
/// time against the core clock.
#[derive(Debug, Clone, Copy, PartialEq, Eq, Structural)]
pub struct SystickState {
    pub csr: u32,
    pub rvr_raw: u32,
    pub cvr: u32,
    pub countflag: bool,
    pub reload_divider: u32,
}

/// Counter period: the 24-bit reload value plus one, divided by the divider, at least 1.
pub open spec fn spec_period(s: SystickState) -> u32 {
    let raw = ((s.rvr_raw & 0x00FF_FFFF) + 1) as u32;
    let scaled = raw / (if s.reload_divider == 0 { 1 } else { s.reload_divider });
    if scaled < 1 { 1 } else { scaled }
}

/// One tick: an enabled counter at 0 reloads (period - 1) and sets COUNTFLAG, otherwise it
/// counts down; a disabled counter does not move.
pub open spec fn spec_tick(s: SystickState) -> SystickState {
    if s.csr & 1 == 0 {
        s
    } else if s.cvr == 0 {
        SystickState { cvr: (spec_period(s) - 1) as u32, countflag: true, ..s }
    } else {
        SystickState { cvr: (s.cvr - 1) as u32, ..s }
    }
}

/// `n` ticks in a row.
pub open spec fn spec_ticks(s: SystickState, n: nat) -> SystickState
    decreases n,
{
    if n == 0 {
        s
    } else {
        spec_tick(spec_ticks(s, (n - 1) as nat))
    }
}

/// The value a 32-bit read of `reg` returns (CTRL shows COUNTFLAG in bit 16).
pub open spec fn spec_reg_value(s: SystickState, reg: SystickReg) -> u32 {
    match reg {
        SystickReg::Ctrl => (s.csr & 0x7) | (if s.countflag { 0x1_0000u32 } else { 0u32 }),
        SystickReg::Load => s.rvr_raw & 0x00FF_FFFF,
        SystickReg::Val => s.cvr,
        SystickReg::Calib => 0,
    }
}

/// Byte `off` of a register value; the bytes above a 32-bit register read as 0.
pub open spec fn spec_byte_of(v: u32, off: u8) -> u8 {
    if off < 4 {
        ((v >> ((off as u32) * 8)) & 0xFF) as u8
    } else {
        0
    }
}

/// State after a 32-bit write of `value` to `reg`: CTRL keeps bits 0-2, LOAD bits 0-23,
/// any write to VAL clears the counter and COUNTFLAG, CALIB ignores writes.
pub open spec fn spec_write32(s: SystickState, reg: SystickReg, value: u32) -> SystickState {
    match reg {
        SystickReg::Ctrl => SystickState { csr: value & 0x7, ..s },
        SystickReg::Load => SystickState { rvr_raw: value & 0x00FF_FFFF, ..s },
        SystickReg::Val => SystickState { cvr: 0, countflag: false, ..s },
        SystickReg::Calib => s,
    }
}

/// The stored value of `reg` that a byte write merges into.
pub open spec fn spec_stored(s: SystickState, reg: SystickReg) -> u32 {
    match reg {
        SystickReg::Ctrl => s.csr,
        SystickReg::Load => s.rvr_raw,
        SystickReg::Val => s.cvr,
        SystickReg::Calib => 0,
    }
}

/// `current` with byte `off` replaced by `value` (unchanged for `off` above 3).
pub open spec fn spec_merge_byte(current: u32, off: u8, value: u8) -> u32 {
    if off < 4 {
        let shift = (off as u32) * 8;
        (current & !(0xFFu32 << shift)) | ((value as u32) << shift)
    } else {
        current
    }
}

impl SystickState {
    pub open spec fn wf(&self) -> bool {
        self.reload_divider >= 1
    }

    /// The state `new(reload_divider)` gives.
    pub open spec fn new_state(reload_divider: u32) -> SystickState {
        SystickState {
            csr: 0,
            rvr_raw: 0,
            cvr: 0,
            countflag: false,
            reload_divider: if reload_divider < 1 { 1 } else { reload_divider },
        }
    }

    /// A stopped counter with the given divider (0 counts as 1).
    pub fn new(reload_divider: u32) -> (r: Self)
        ensures
            r.wf(),
            r == SystickState::new_state(reload_divider),
    {
        SystickState {
            csr: 0,
            rvr_raw: 0,
            cvr: 0,
            countflag: false,
            reload_divider: if reload_divider < 1 { 1 } else { reload_divider },
        }
    }

    pub fn enabled(&self) -> (r: bool)
        ensures
            r == (self.csr & 1 != 0),
    {
        self.csr & 0x1 != 0
    }

    pub fn effective_period(&self) -> (r: u32)
        ensures
            r == spec_period(*self),
            r >= 1,
    {
        let raw = self.rvr_raw;
        let low = raw & 0x00FF_FFFF;
        assert(low < 0x0100_0000) by (bit_vector) requires low == raw & 0x00FF_FFFF;
        let raw_period = low.wrapping_add(1);
        let divider = if self.reload_divider == 0 { 1 } else { self.reload_divider };
        let scaled = raw_period / divider;
        if scaled < 1 { 1 } else { scaled }
    }

    pub fn tick(&mut self)
        ensures
            *final(self) == spec_tick(*old(self)),
    {
        if !self.enabled() {
            return;
        }
        if self.cvr == 0 {
            self.cvr = self.effective_period().saturating_sub(1);
            self.countflag = true;
        } else {
            self.cvr = self.cvr.wrapping_sub(1);
        }
    }

    pub fn tick_many(&mut self, ticks: u64)
        ensures
            *final(self) == spec_ticks(*old(self), ticks as nat),
    {
        let mut i: u64 = 0;
        while i < ticks
            invariant
                i <= ticks,
                *self == spec_ticks(*old(self), i as nat),
            decreases ticks - i,
        {
            self.tick();
            i = i + 1;
        }
    }

    /// Byte `byte_offset` of `reg`; reading has no effect.
    pub fn read8(&self, reg: SystickReg, byte_offset: u8) -> (r: u8)
        ensures
            r == spec_byte_of(spec_reg_value(*self, reg), byte_offset),
    {
        let value = match reg {
            SystickReg::Ctrl => (self.csr & 0x7) | if self.countflag { 1 << 16 } else { 0 },
            SystickReg::Load => self.rvr_raw & 0x00FF_FFFF,
            SystickReg::Val => self.cvr,
            SystickReg::Calib => 0,
        };
        assert((1u32 << 16) == 0x1_0000u32) by (bit_vector);
        if byte_offset < 4 {
            ((value >> ((byte_offset as u32) * 8)) & 0xFF) as u8
        } else {
            0
        }
    }

    /// A 32-bit read of `reg`; reading CTRL clears COUNTFLAG.
    pub fn read32(&mut self, reg: SystickReg) -> (r: u32)
        ensures
            r == spec_reg_value(*old(self), reg),
            *final(self) == if reg == SystickReg::Ctrl {
                SystickState { countflag: false, ..*old(self) }
            } else {
                *old(self)
            },
    {
        assert((1u32 << 16) == 0x1_0000u32) by (bit_vector);
        match reg {
            SystickReg::Ctrl => {
                let value = (self.csr & 0x7) | if self.countflag { 1 << 16 } else { 0 };
                self.countflag = false;
                value
            },
            SystickReg::Load => self.rvr_raw & 0x00FF_FFFF,
            SystickReg::Val => self.cvr,
            SystickReg::Calib => 0,
        }
    }

    pub fn write32(&mut self, reg: SystickReg, value: u32)
        ensures
            *final(self) == spec_write32(*old(self), reg, value),
    {
        match reg {
            SystickReg::Ctrl => {
                self.csr = value & 0x7;
            },
            SystickReg::Load => {
                self.rvr_raw = value & 0x00FF_FFFF;
            },
            SystickReg::Val => {
                self.cvr = 0;
                self.countflag = false;
            },
            SystickReg::Calib => {},
        }
    }

    /// A byte write: merged into the stored register value, then written as a word.
    pub fn write8(&mut self, reg: SystickReg, byte_offset: u8, value: u8)
        ensures
            *final(self) == spec_write32(
                *old(self),
                reg,
                spec_merge_byte(spec_stored(*old(self), reg), byte_offset, value),
            ),
    {
        let current = match reg {
            SystickReg::Ctrl => self.csr,
            SystickReg::Load => self.rvr_raw,
            SystickReg::Val => self.cvr,
            SystickReg::Calib => 0,
        };
        let merged = if byte_offset < 4 {
            let shift = (byte_offset as u32) * 8;
            let mask = !(0xFFu32 << shift);
            (current & mask) | ((value as u32) << shift)
        } else {
            current
        };
        self.write32(reg, merged);
    }
}

} // verus!
