//! Built-in STM32 targets: STM32F103 and STM32F407, with peripherals from an SVD file.
pub mod f103;
pub mod f407;

use crate::target::{MemoryRegion, MemoryRegionKind};
use crate::targets::config::region_view;
use crate::targets::patch::patch_view;
use vstd::prelude::*;

verus! {

/// A memory region `[start, end)`.
pub fn region(name: &str, start: u64, end: u64, kind: MemoryRegionKind) -> (r: MemoryRegion)
    ensures
        region_view(r) == (name@, start, end, kind),
{
    MemoryRegion { name: name.to_owned(), range: start..end, kind }
}

/// The STM32F103 memory map: 1 MiB flash, 64 KiB SRAM, peripherals, system.
pub open spec fn f103_regions() -> Seq<(Seq<char>, u64, u64, MemoryRegionKind)> {
    seq![
        ("flash"@, 0x0800_0000u64, 0x0810_0000u64, MemoryRegionKind::Flash),
        ("sram"@, 0x2000_0000u64, 0x2001_0000u64, MemoryRegionKind::Ram),
        ("peripherals"@, 0x4000_0000u64, 0x5000_0000u64, MemoryRegionKind::Peripheral),
        ("system"@, 0xE000_0000u64, 0xE010_0000u64, MemoryRegionKind::System),
    ]
}

/// The STM32F407 memory map: 1 MiB flash, 128 KiB SRAM, 64 KiB CCM, peripherals, system.
pub open spec fn f407_regions() -> Seq<(Seq<char>, u64, u64, MemoryRegionKind)> {
    seq![
        ("flash"@, 0x0800_0000u64, 0x0810_0000u64, MemoryRegionKind::Flash),
        ("sram"@, 0x2000_0000u64, 0x2002_0000u64, MemoryRegionKind::Ram),
        ("ccm"@, 0x1000_0000u64, 0x1001_0000u64, MemoryRegionKind::Ram),
        ("peripherals"@, 0x4000_0000u64, 0x6000_0000u64, MemoryRegionKind::Peripheral),
        ("system"@, 0xE000_0000u64, 0xE010_0000u64, MemoryRegionKind::System),
    ]
}

/// The F407 peripherals with the ready bits of the RCC clocks set at reset: HSIRDY, HSERDY
/// and PLLRDY in CR, LSIRDY in CSR, LSERDY in BDCR.
pub open spec fn f407_patched(ps: Seq<(Seq<char>, u64, Seq<(Seq<char>, u64, u32, u64)>)>) -> Seq<(Seq<char>, u64, Seq<(Seq<char>, u64, u32, u64)>)> {
    patch_view(patch_view(patch_view(ps, "CR"@, 0x0202_0002), "CSR"@, 0x2), "BDCR"@, 0x2)
}

} // verus!
