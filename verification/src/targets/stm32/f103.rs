//! The STM32F103 target.
use crate::cpu::ArchitectureId;
use crate::svd::parser::{parse_svd, periph_view, spec_parse_svd};
use crate::target::{CpuType, MemoryRegion, MemoryRegionKind, PeripheralSpec, TargetSpec};
use crate::targets::config::region_view;
use crate::targets::stm32::{f103_regions, region};
use vstd::prelude::*;

verus! {


/// The STM32F103 target (Cortex-M3, 8 MHz) with the peripherals of `svd_xml`, which must
/// be given.
pub fn load_target(svd_xml: Option<&str>) -> (r: Result<TargetSpec, String>)
    ensures
        match svd_xml {
            None => r matches Err(e) && e@ == "missing SVD: pass --svd path/to/stm32f103.svd"@,
            Some(x) => match spec_parse_svd(x@) {
                Err(m) => r matches Err(e) && e@ == m,
                Ok((_, ps)) => r matches Ok(t) && {
                    &&& t.name@ == "STM32F103"@
                    &&& t.architecture == ArchitectureId::ArmV7M
                    &&& t.cpu_type == CpuType::CortexM3
                    &&& t.vector_table_base == 0x0800_0000
                    &&& t.core_clock_hz == 8_000_000
                    &&& t.hsi_hz == 8_000_000
                    &&& !t.has_pllcfgr
                    &&& t.systick_reload_divider == 1024
                    &&& t.memory_map@.map_values(|m: MemoryRegion| region_view(m)) == f103_regions()
                    &&& t.peripherals@.map_values(|p: PeripheralSpec| periph_view(p)) == ps
                },
            },
        },
{
    let xml = match svd_xml {
        Some(x) => x,
        None => return Err("missing SVD: pass --svd path/to/stm32f103.svd".to_owned()),
    };
    let peripherals = parse_svd(xml)?.peripherals;
    let mut memory_map: Vec<MemoryRegion> = Vec::new();
    memory_map.push(region("flash", 0x0800_0000, 0x0810_0000, MemoryRegionKind::Flash));
    memory_map.push(region("sram", 0x2000_0000, 0x2001_0000, MemoryRegionKind::Ram));
    memory_map.push(region("peripherals", 0x4000_0000, 0x5000_0000, MemoryRegionKind::Peripheral));
    memory_map.push(region("system", 0xE000_0000, 0xE010_0000, MemoryRegionKind::System));
    assert(memory_map@.map_values(|m: MemoryRegion| region_view(m)) =~= f103_regions());
    Ok(TargetSpec {
        name: "STM32F103".to_owned(),
        architecture: ArchitectureId::ArmV7M,
        cpu_type: CpuType::CortexM3,
        vector_table_base: 0x0800_0000,
        core_clock_hz: 8_000_000,
        hsi_hz: 8_000_000,
        has_pllcfgr: false,
        systick_reload_divider: 1024,
        memory_map,
        peripherals,
    })
}

} // verus!
