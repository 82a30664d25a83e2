//! The Cortex-M3 core whose instructions an outside emulation engine runs: its register
//! state, its reset, how its state moves to and from the engine, and the decisions taken
//! around each batch of instructions.
use crate::bus::traits::SystemBus;
use crate::cpu::armv7em::page_base;
use crate::cpu::armv7m_legacy::ArmV7MArchitecture;
use crate::text::{concat3, hex_message, spec_hex_message};
use vstd::prelude::*;

verus! {

/// Instructions the engine runs in one batch.
pub const EXTERNAL_BATCH: u32 = 1024;

/// Register state of the Cortex-M3 run by the outside engine, and the steps of the last batch
/// that are still to be counted.
#[derive(Debug)]
pub struct CortexM3External {
    pub arch: ArmV7MArchitecture,
    pub registers: [u32; 16],
    pub xpsr: u32,
    pub pending_steps: u32,
}

/// Whether `addr` lies in memory that the engine keeps itself: the flash alias, flash, SRAM
/// and CCM ranges that it maps at reset.
pub open spec fn spec_memory_backed(addr: u64) -> bool {
    (addr < 0x0010_0000) || (0x0800_0000 <= addr && addr < 0x0810_0000) || (0x2000_0000 <= addr && addr
        < 0x2002_0000) || (0x1000_0000 <= addr && addr < 0x1001_0000)
}

/// Whether a write at `addr` marks its page for copying back to the bus (SRAM or CCM).
pub open spec fn spec_dirty_tracked(addr: u64) -> bool {
    (0x2000_0000 <= addr && addr < 0x2002_0000) || (0x1000_0000 <= addr && addr < 0x1001_0000)
}

/// What the engine does with a firmware write it reports.
#[derive(Debug, Clone, Copy, PartialEq, Eq, Structural)]
pub enum WriteHookAction {
    /// SRAM or CCM: note the page for copying back and go on.
    TrackPage(u64),
    /// Outside the memory the engine keeps: the write goes to the bus and the batch stops.
    ForwardAndStop,
    /// Other memory the engine keeps: nothing to do.
    Continue,
}

/// The memory that the engine maps at reset and fills from the bus, as half-open ranges.
pub fn premap_regions() -> (r: Vec<(u64, u64)>)
    ensures
        r@ == seq![
            (0x0000_0000u64, 0x0010_0000u64),
            (0x0800_0000u64, 0x0810_0000u64),
            (0x2000_0000u64, 0x2002_0000u64),
            (0x1000_0000u64, 0x1001_0000u64),
        ],
{
    let mut regions: Vec<(u64, u64)> = Vec::new();
    regions.push((0x0000_0000, 0x0010_0000));
    regions.push((0x0800_0000, 0x0810_0000));
    regions.push((0x2000_0000, 0x2002_0000));
    regions.push((0x1000_0000, 0x1001_0000));
    assert(regions@ =~= seq![
        (0x0000_0000u64, 0x0010_0000u64),
        (0x0800_0000u64, 0x0810_0000u64),
        (0x2000_0000u64, 0x2002_0000u64),
        (0x1000_0000u64, 0x1001_0000u64),
    ]);
    regions
}

/// Whether `addr` lies in memory that the engine keeps itself (see `spec_memory_backed`).
pub fn is_memory_backed(addr: u64) -> (r: bool)
    ensures
        r == spec_memory_backed(addr),
{
    addr < 0x0010_0000 || (0x0800_0000 <= addr && addr < 0x0810_0000) || (0x2000_0000 <= addr && addr
        < 0x2002_0000) || (0x1000_0000 <= addr && addr < 0x1001_0000)
}

/// Whether a dirty page at `page` is copied back to the bus: only SRAM pages are.
pub fn is_synced_page(page: u64) -> (r: bool)
    ensures
        r == (0x2000_0000 <= page && page < 0x2002_0000),
{
    0x2000_0000 <= page && page < 0x2002_0000
}

/// What the engine does with a firmware write at `addr` (see `WriteHookAction`).
pub fn write_hook_action(addr: u64) -> (r: WriteHookAction)
    ensures
        r == (if spec_dirty_tracked(addr) {
            WriteHookAction::TrackPage(addr & !0xFFFu64)
        } else if !spec_memory_backed(addr) {
            WriteHookAction::ForwardAndStop
        } else {
            WriteHookAction::Continue
        }),
{
    if (0x2000_0000 <= addr && addr < 0x2002_0000) || (0x1000_0000 <= addr && addr < 0x1001_0000) {
        WriteHookAction::TrackPage(page_base(addr))
    } else if !is_memory_backed(addr) {
        WriteHookAction::ForwardAndStop
    } else {
        WriteHookAction::Continue
    }
}

/// The engine's CPSR for xPSR `x`: the N, Z, C, V and Q flags, and the T bit (bit 5) from the
/// Thumb bit (xPSR bit 24).
pub open spec fn cpsr_of(x: u32) -> u32 {
    (x & 0xF800_0000) | (if (x >> 24u32) & 1 == 1 {
        0x20u32
    } else {
        0u32
    })
}

/// The xPSR for the engine's CPSR `c`: its flags, and the Thumb bit from the T bit.
pub open spec fn xpsr_of(c: u32) -> u32 {
    (c & 0xF800_0000) | (if c & 0x20 != 0 {
        0x0100_0000u32
    } else {
        0u32
    })
}

/// Reset: the initial SP is read from `vtb` and the reset handler from `vtb + 4`; the
/// registers are then zero but SP and PC (bit 0 cleared), in Thumb state. A failed read leaves
/// the core as it was.
pub open spec fn external_reset_post<B: SystemBus>(
    s: CortexM3External,
    b: B,
    vtb: u64,
    ok: bool,
    s2: CortexM3External,
    b2: B,
) -> bool {
    ||| !ok && b.read32_post(vtb, None, b2) && s2 == s
    ||| exists|sp: u32, b1: B|
        #[trigger] b.read32_post(vtb, Some(sp), b1) && {
            ||| !ok && b1.read32_post((vtb + 4) as u64, None, b2) && s2 == s
            ||| exists|h: u32|
                #[trigger] b1.read32_post((vtb + 4) as u64, Some(h), b2) && ok && s2.registers@ == Seq::new(
                    16,
                    |i: int| 0u32,
                ).update(13, sp).update(15, h & !1u32) && s2.xpsr == 0x0100_0000 && s2.pending_steps
                    == s.pending_steps
        }
}

impl CortexM3External {
    /// A core with every register zero, in Thumb state.
    pub fn new() -> (r: Self)
        ensures
            r.registers@ == Seq::new(16, |i: int| 0u32),
            r.xpsr == 0x0100_0000,
            r.pending_steps == 0,
    {
        let r = CortexM3External { arch: ArmV7MArchitecture, registers: [0u32; 16], xpsr: 0x0100_0000, pending_steps: 0 };
        assert(r.registers@ =~= Seq::new(16, |i: int| 0u32));
        r
    }

    pub fn registers(&self) -> (r: &[u32; 16])
        ensures
            r@ == self.registers@,
    {
        &self.registers
    }

    /// Whether the Thumb bit (xPSR bit 24) is set.
    pub fn thumb_state(&self) -> (r: bool)
        ensures
            r == ((self.xpsr >> 24u32) & 1 == 1),
    {
        (self.xpsr >> 24) & 1 == 1
    }

    pub fn program_counter(&self) -> (r: u64)
        ensures
            r == self.registers@[15],
    {
        self.registers[15] as u64
    }

    pub fn stack_pointer(&self) -> (r: u64)
        ensures
            r == self.registers@[13],
    {
        self.registers[13] as u64
    }

    /// Whether an exception is active (xPSR's exception number is not zero).
    pub fn in_exception(&self) -> (r: bool)
        ensures
            r == (self.xpsr & 0x1FF != 0),
    {
        (self.xpsr & 0x1FF) != 0
    }

    /// Resets the core from the vector table at `vector_table_base` (see
    /// `external_reset_post`).
    pub fn reset<B: SystemBus>(&mut self, bus: &mut B, vector_table_base: u64) -> (r: Result<(), String>)
        requires
            vector_table_base <= 0xFFFF_FFFF_FFF0_0000,
        ensures
            external_reset_post(*old(self), *old(bus), vector_table_base, r is Ok, *final(self), *final(bus)),
    {
        let ghost b0 = *bus;
        let initial_sp = bus.read32(vector_table_base)?;
        let ghost b1 = *bus;
        assert(b0.read32_post(vector_table_base, Some(initial_sp), b1));
        let reset_handler = bus.read32(vector_table_base + 4)?;
        assert(b1.read32_post((vector_table_base + 4) as u64, Some(reset_handler), *bus));
        let mut regs: [u32; 16] = [0u32; 16];
        regs[13] = initial_sp;
        regs[15] = reset_handler & !1;
        assert(regs@ =~= Seq::new(16, |i: int| 0u32).update(13, initial_sp).update(15, reset_handler & !1u32));
        self.registers = regs;
        self.xpsr = 0x0100_0000;
        Ok(())
    }

    /// The CPSR value the engine takes (see `cpsr_of`).
    pub fn engine_cpsr(&self) -> (r: u32)
        ensures
            r == cpsr_of(self.xpsr),
    {
        let t: u32 = if (self.xpsr >> 24) & 1 == 1 {
            0x20
        } else {
            0
        };
        (self.xpsr & 0xF800_0000) | t
    }

    /// Takes the registers and CPSR the engine holds after a batch (see `xpsr_of`).
    pub fn sync_from_engine(&mut self, registers: [u32; 16], cpsr: u32)
        ensures
            final(self).registers@ == registers@,
            final(self).xpsr == xpsr_of(cpsr),
            final(self).pending_steps == old(self).pending_steps,
    {
        self.registers = registers;
        let t: u32 = if cpsr & 0x20 != 0 {
            0x0100_0000
        } else {
            0
        };
        self.xpsr = (cpsr & 0xF800_0000) | t;
    }

    /// The address at which the engine starts a batch: PC, with bit 0 set in Thumb state.
    pub fn batch_start(&self) -> (r: u64)
        ensures
            r == (if (self.xpsr >> 24u32) & 1 == 1 {
                (self.registers@[15] | 1) as u64
            } else {
                self.registers@[15] as u64
            }),
    {
        let pc = self.registers[15];
        if self.thumb_state() {
            (pc | 1) as u64
        } else {
            pc as u64
        }
    }

    /// A step that an earlier batch already ran: when one is pending it is counted now and
    /// `true` is returned.
    pub fn take_pending_step(&mut self) -> (r: bool)
        ensures
            r == (old(self).pending_steps > 0),
            final(self).pending_steps == (if r {
                (old(self).pending_steps - 1) as u32
            } else {
                0
            }),
            final(self).registers == old(self).registers,
            final(self).xpsr == old(self).xpsr,
    {
        if self.pending_steps > 0 {
            self.pending_steps = self.pending_steps - 1;
            true
        } else {
            false
        }
    }

    /// Settles a batch that started at `begin`: a bus error from a hook is the result, then the
    /// engine's own error (as its debug text) becomes the error text; otherwise the batch ran
    /// `EXTERNAL_BATCH - budget_left` instructions, of which all but the current step are left
    /// pending.
    pub fn settle_batch(
        &mut self,
        begin: u64,
        hook_error: Option<String>,
        engine_error: Option<String>,
        budget_left: u32,
    ) -> (r: Result<(), String>)
        ensures
            final(self).registers == old(self).registers,
            final(self).xpsr == old(self).xpsr,
            match hook_error {
                Some(e) => r == Err::<(), String>(e) && final(self).pending_steps == old(self).pending_steps,
                None => match engine_error {
                    Some(t) => r is Err && r->Err_0@ == spec_hex_message(
                        "unicorn batch failed at pc="@,
                        begin,
                        8,
                        ": "@ + t@,
                    ) && final(self).pending_steps == old(self).pending_steps,
                    None => r is Ok && final(self).pending_steps == (if EXTERNAL_BATCH > budget_left {
                        (EXTERNAL_BATCH - budget_left - 1) as u32
                    } else {
                        0
                    }),
                },
            },
    {
        if let Some(e) = hook_error {
            return Err(e);
        }
        if let Some(t) = engine_error {
            proof {
                reveal_strlit("");
            }
            let suffix = concat3(": ", t.as_str(), "");
            assert(suffix@ =~= ": "@ + t@);
            return Err(hex_message("unicorn batch failed at pc=", begin, 8, suffix.as_str()));
        }
        let ran = if EXTERNAL_BATCH > budget_left {
            EXTERNAL_BATCH - budget_left
        } else {
            0
        };
        self.pending_steps = if ran > 0 {
            ran - 1
        } else {
            0
        };
        Ok(())
    }
}

impl Default for CortexM3External {
    fn default() -> (r: Self)
        ensures
            r.registers@ == Seq::new(16, |i: int| 0u32),
            r.xpsr == 0x0100_0000,
            r.pending_steps == 0,
    {
        Self::new()
    }
}

} // verus!
