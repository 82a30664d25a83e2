pub mod armv7em;
pub mod armv7m;
pub mod armv7m_external;
pub mod armv7m_legacy;

use crate::bus::traits::SystemBus;
use vstd::prelude::*;

verus! {

/// Identifier of an instruction-set architecture.
#[derive(Debug, Clone, PartialEq, Eq)]
pub enum ArchitectureId {
    ArmV7M,
    Unknown(String),
}

/// Address-map features that an architecture provides (flash alias, bit-band region).
#[derive(Debug, Clone, Copy, PartialEq, Eq, Default, Structural)]
pub struct ArchitectureMemoryConfig {
    pub flash_alias_base: Option<u64>,
    pub periph_bitband_base: Option<u64>,
    pub periph_bitband_alias_start: Option<u64>,
    pub periph_bitband_alias_end: Option<u64>,
}

/// Static description of a CPU architecture.
pub trait CpuArchitecture {
    fn id(&self) -> ArchitectureId;

    fn name(&self) -> &'static str;

    fn reset_vector_bits(&self) -> u8;

    /// The address-map features of this architecture.
    spec fn spec_memory_config(&self) -> ArchitectureMemoryConfig;

    fn memory_config(&self) -> (r: ArchitectureMemoryConfig)
        ensures
            r == self.spec_memory_config(),
    ;
}

/// A CPU core that executes instructions against a system bus.
///
/// `step_post`, `reset_post` and `exception_post` describe what the core does; `inv` is the
/// well-formedness of its state, kept by every operation.
pub trait CpuCore<B: SystemBus>: Sized {
    type Arch: CpuArchitecture;

    spec fn inv(&self) -> bool;

    /// The architecture description of this core.
    spec fn spec_arch(&self) -> Self::Arch;

    spec fn spec_pc(&self) -> u64;

    spec fn spec_sp(&self) -> u64;

    spec fn spec_in_exception(&self) -> bool;

    spec fn step_post(&self, bus: B, ok: bool, after: Self, bus_after: B) -> bool;

    spec fn reset_post(
        &self,
        bus: B,
        vector_table_base: u64,
        ok: bool,
        after: Self,
        bus_after: B,
    ) -> bool;

    spec fn exception_post(
        &self,
        bus: B,
        vector_table_base: u64,
        exception_number: u16,
        r: Option<bool>,
        after: Self,
        bus_after: B,
    ) -> bool;

    fn step(&mut self, bus: &mut B) -> (r: Result<(), String>)
        requires
            old(self).inv(),
        ensures
            final(self).inv(),
            old(self).step_post(*old(bus), r is Ok, *final(self), *final(bus)),
    ;

    fn reset(&mut self, bus: &mut B, vector_table_base: u64) -> (r: Result<
        (),
        String,
    >)
        requires
            old(self).inv(),
            vector_table_base <= 0xFFFF_FFFF_FFF0_0000,
        ensures
            final(self).inv(),
            old(self).reset_post(*old(bus), vector_table_base, r is Ok, *final(self), *final(bus)),
    ;

    fn architecture(&self) -> (r: &Self::Arch)
        ensures
            *r == self.spec_arch(),
    ;

    fn program_counter(&self) -> (r: u64)
        ensures
            r == self.spec_pc(),
    ;

    fn stack_pointer(&self) -> (r: u64)
        ensures
            r == self.spec_sp(),
    ;

    fn in_exception(&self) -> (r: bool)
        ensures
            r == self.spec_in_exception(),
    ;

    fn enter_exception(
        &mut self,
        bus: &mut B,
        vector_table_base: u64,
        exception_number: u16,
    ) -> (r: Result<bool, String>)
        requires
            old(self).inv(),
            vector_table_base <= 0xFFFF_FFFF_FFF0_0000,
        ensures
            final(self).inv(),
            old(self).exception_post(
                *old(bus),
                vector_table_base,
                exception_number,
                crate::bus::traits::ok_value(r),
                *final(self),
                *final(bus),
            ),
    ;
}

} // verus!
