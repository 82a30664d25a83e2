//! The Cortex-M3 core as the machine sees it, with the choice of execution backend.
use crate::bus::traits::SystemBus;
use crate::cpu::armv7m_legacy;
use crate::cpu::armv7m_legacy::ArmV7MArchitecture;
use crate::cpu::CpuCore;
use vstd::prelude::*;

verus! {

/// Which engine executes the instructions.
#[derive(Debug, Clone, Copy, PartialEq, Eq, Structural)]
pub enum ArmCoreBackend {
    Legacy,
    External,
}

/// Backend selected by the text of the `RSEMU_ARM_CORE` setting (`None` when it is unset):
/// `external`, `unicorn` and `third_party` (in any ASCII case) select the external engine,
/// anything else the interpreter.
pub open spec fn backend_for(setting: Option<Seq<char>>) -> ArmCoreBackend {
    match setting {
        Some(v) => if crate::text::eq_ignore_case(v, "external"@) || crate::text::eq_ignore_case(v, "unicorn"@)
            || crate::text::eq_ignore_case(v, "third_party"@) {
            ArmCoreBackend::External
        } else {
            ArmCoreBackend::Legacy
        },
        None => ArmCoreBackend::Legacy,
    }
}

impl ArmCoreBackend {
    /// The backend named by the value of the `RSEMU_ARM_CORE` setting, if it is set.
    pub fn from_setting(setting: Option<&str>) -> (r: Self)
        ensures
            r == backend_for(match setting { Some(s) => Some(s@), None => None }),
    {
        match setting {
            Some(value) => {
                if crate::text::eq_ignore_ascii_case(value, "external") || crate::text::eq_ignore_ascii_case(value, "unicorn")
                    || crate::text::eq_ignore_ascii_case(value, "third_party") {
                    ArmCoreBackend::External
                } else {
                    ArmCoreBackend::Legacy
                }
            },
            None => ArmCoreBackend::Legacy,
        }
    }
}

/// A Cortex-M3 core on the interpreting backend. The external backend's state and decisions
/// are `armv7m_external::CortexM3External`; its instructions run on an outside engine, which
/// this type does not hold.
#[derive(Debug)]
pub enum CortexM3 {
    Legacy(armv7m_legacy::CortexM3),
}

impl CortexM3 {
    pub open spec fn legacy(&self) -> armv7m_legacy::CortexM3 {
        match self {
            CortexM3::Legacy(c) => *c,
        }
    }

    /// A core with the interpreting backend, in its power-on state.
    pub fn new() -> (r: Self)
        ensures
            r.legacy().wf(),
            r.legacy().registers@ == Seq::new(16, |i: int| 0u32),
            r.legacy().xpsr == 0,
    {
        CortexM3::Legacy(armv7m_legacy::CortexM3::new())
    }

    /// A core with the given backend; the external backend is refused here (see
    /// `armv7m_external`).
    pub fn with_backend(backend: ArmCoreBackend) -> (r: Result<Self, String>)
        ensures
            r is Ok <==> backend == ArmCoreBackend::Legacy,
            r matches Ok(c) ==> c.legacy().wf() && c.legacy().registers@ == Seq::new(16, |i: int| 0u32),
    {
        match backend {
            ArmCoreBackend::Legacy => Ok(CortexM3::Legacy(armv7m_legacy::CortexM3::new())),
            ArmCoreBackend::External => Err("the external ARM core is not available in this build".to_string()),
        }
    }

    pub fn backend(&self) -> (r: ArmCoreBackend)
        ensures
            r == ArmCoreBackend::Legacy,
    {
        match self {
            CortexM3::Legacy(_) => ArmCoreBackend::Legacy,
        }
    }

    pub fn registers(&self) -> (r: &[u32; 16])
        ensures
            r@ == self.legacy().registers@,
    {
        match self {
            CortexM3::Legacy(cpu) => cpu.registers(),
        }
    }

    /// The program counter (R15).
    pub fn program_counter(&self) -> (r: u64)
        ensures
            r == self.legacy().registers@[15] as u64,
    {
        match self {
            CortexM3::Legacy(cpu) => cpu.program_counter(),
        }
    }

    /// The stack pointer (R13).
    pub fn stack_pointer(&self) -> (r: u64)
        ensures
            r == self.legacy().registers@[13] as u64,
    {
        match self {
            CortexM3::Legacy(cpu) => cpu.stack_pointer(),
        }
    }

    pub fn thumb_state(&self) -> (r: bool)
        ensures
            r == ((self.legacy().xpsr >> 24) & 1 == 1),
    {
        match self {
            CortexM3::Legacy(cpu) => cpu.thumb_state(),
        }
    }
}

impl<B: SystemBus> CpuCore<B> for CortexM3 {
    type Arch = ArmV7MArchitecture;

    open spec fn inv(&self) -> bool {
        self.legacy().wf()
    }

    open spec fn spec_arch(&self) -> ArmV7MArchitecture {
        self.legacy().arch
    }

    open spec fn spec_pc(&self) -> u64 {
        self.legacy().registers@[15] as u64
    }

    open spec fn spec_sp(&self) -> u64 {
        self.legacy().registers@[13] as u64
    }

    open spec fn spec_in_exception(&self) -> bool {
        self.legacy().xpsr & 0x1FF != 0
    }

    open spec fn step_post(&self, bus: B, ok: bool, after: Self, bus_after: B) -> bool {
        armv7m_legacy::core_step(self.legacy(), bus, ok, after.legacy(), bus_after)
    }

    open spec fn reset_post(&self, bus: B, vector_table_base: u64, ok: bool, after: Self, bus_after: B) -> bool {
        armv7m_legacy::core_reset(self.legacy(), bus, vector_table_base, ok, after.legacy(), bus_after)
    }

    open spec fn exception_post(
        &self,
        bus: B,
        vector_table_base: u64,
        exception_number: u16,
        r: Option<bool>,
        after: Self,
        bus_after: B,
    ) -> bool {
        armv7m_legacy::core_exception(self.legacy(), bus, vector_table_base, exception_number, r, after.legacy(), bus_after)
    }

    fn step(&mut self, bus: &mut B) -> (r: Result<(), String>) {
        match self {
            CortexM3::Legacy(cpu) => CpuCore::<B>::step(cpu, bus),
        }
    }

    fn reset(&mut self, bus: &mut B, vector_table_base: u64) -> (r: Result<(), String>) {
        match self {
            CortexM3::Legacy(cpu) => CpuCore::<B>::reset(cpu, bus, vector_table_base),
        }
    }

    fn architecture(&self) -> &ArmV7MArchitecture {
        match self {
            CortexM3::Legacy(cpu) => &cpu.arch,
        }
    }

    fn program_counter(&self) -> (r: u64) {
        match self {
            CortexM3::Legacy(cpu) => cpu.registers[15] as u64,
        }
    }

    fn stack_pointer(&self) -> (r: u64) {
        match self {
            CortexM3::Legacy(cpu) => cpu.registers[13] as u64,
        }
    }

    fn in_exception(&self) -> (r: bool) {
        match self {
            CortexM3::Legacy(cpu) => (cpu.xpsr & 0x1FF) != 0,
        }
    }

    fn enter_exception(&mut self, bus: &mut B, vector_table_base: u64, exception_number: u16) -> (r: Result<bool, String>) {
        match self {
            CortexM3::Legacy(cpu) => CpuCore::<B>::enter_exception(cpu, bus, vector_table_base, exception_number),
        }
    }
}

} // verus!
