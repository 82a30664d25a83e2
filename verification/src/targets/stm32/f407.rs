//! The STM32F407 target.
use crate::cpu::ArchitectureId;
use crate::svd::parser::{parse_svd, periph_view, spec_parse_svd};
use crate::target::{CpuType, MemoryRegion, MemoryRegionKind, PeripheralSpec, TargetSpec};
use crate::targets::config::region_view;
use crate::targets::patch::apply_rcc_patch;
use crate::targets::stm32::{f407_patched, f407_regions, region};
use vstd::prelude::*;

verus! {


/// The STM32F407 target (Cortex-M4, 16 MHz, PLLCFGR) with the peripherals of `svd_xml`,
/// which must be given, the RCC ready bits set at reset.
pub fn load_target(svd_xml: Option<&str>) -> (r: Result<TargetSpec, String>)
    ensures
        match svd_xml {
            None => r matches Err(e) && e@ == "missing SVD: pass --svd path/to/stm32f407.svd"@,
            Some(x) => match spec_parse_svd(x@) {
                Err(m) => r matches Err(e) && e@ == m,
                Ok((_, ps)) => r matches Ok(t) && {
                    &&& t.name@ == "STM32F407"@
                    &&& t.architecture == ArchitectureId::ArmV7M
                    &&& t.cpu_type == CpuType::CortexM4
                    &&& t.vector_table_base == 0x0800_0000
                    &&& t.core_clock_hz == 16_000_000
                    &&& t.hsi_hz == 16_000_000
                    &&& t.has_pllcfgr
                    &&& t.systick_reload_divider == 1024
                    &&& t.memory_map@.map_values(|m: MemoryRegion| region_view(m)) == f407_regions()
                    &&& t.peripherals@.map_values(|p: PeripheralSpec| periph_view(p)) == f407_patched(ps)
                },
            },
        },
{
    let xml = match svd_xml {
        Some(x) => x,
        None => return Err("missing SVD: pass --svd path/to/stm32f407.svd".to_owned()),
    };
    let mut peripherals = parse_svd(xml)?.peripherals;
    apply_rcc_patch(&mut peripherals, "CR", 0x0202_0002);
    apply_rcc_patch(&mut peripherals, "CSR", 0x0000_0002);
    apply_rcc_patch(&mut peripherals, "BDCR", 0x0000_0002);
    let mut memory_map: Vec<MemoryRegion> = Vec::new();
    memory_map.push(region("flash", 0x0800_0000, 0x0810_0000, MemoryRegionKind::Flash));
    memory_map.push(region("sram", 0x2000_0000, 0x2002_0000, MemoryRegionKind::Ram));
    memory_map.push(region("ccm", 0x1000_0000, 0x1001_0000, MemoryRegionKind::Ram));
    memory_map.push(region("peripherals", 0x4000_0000, 0x6000_0000, MemoryRegionKind::Peripheral));
    memory_map.push(region("system", 0xE000_0000, 0xE010_0000, MemoryRegionKind::System));
    assert(memory_map@.map_values(|m: MemoryRegion| region_view(m)) =~= f407_regions());
    Ok(TargetSpec {
        name: "STM32F407".to_owned(),
        architecture: ArchitectureId::ArmV7M,
        cpu_type: CpuType::CortexM4,
        vector_table_base: 0x0800_0000,
        core_clock_hz: 16_000_000,
        hsi_hz: 16_000_000,
        has_pllcfgr: true,
        systick_reload_divider: 1024,
        memory_map,
        peripherals,
    })
}

} // verus!
