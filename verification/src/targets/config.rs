//! Target descriptions as target files write them, and the target specs they give.
use crate::cpu::ArchitectureId;
use crate::svd::parser::{parse_svd, periph_view, spec_parse_svd};
use crate::target::{CpuType, MemoryRegion, MemoryRegionKind, PeripheralSpec, TargetSpec};
use crate::targets::patch::{apply_rcc_patch, parse_hex, patch_view, spec_parse_hex};
use crate::text::concat3;
use vstd::prelude::*;

verus! {

/// The CPU core a target file names.
#[derive(Debug, Clone, Copy, PartialEq, Eq, Structural)]
pub enum CpuTypeConfig {
    CortexM3,
    CortexM4,
}

/// The kind of a memory region a target file names.
#[derive(Debug, Clone, Copy, PartialEq, Eq, Structural)]
pub enum MemoryKindConfig {
    Flash,
    Ram,
    Peripheral,
    System,
}

/// A target as a target file describes it; addresses are hexadecimal text.
#[derive(Debug, Clone)]
pub struct TargetConfig {
    pub id: String,
    pub name: String,
    pub cpu_type: CpuTypeConfig,
    pub hsi_hz: u32,
    pub core_clock_hz: u32,
    pub has_pllcfgr: bool,
    pub vector_table_base: String,
    pub systick_reload_divider: u32,
    pub svd_file: String,
    pub memory_map: Vec<MemoryRegionConfig>,
    pub rcc_patches: Vec<RccPatch>,
}

/// A memory region of a target file: name, start and end (hexadecimal), kind.
#[derive(Debug, Clone)]
pub struct MemoryRegionConfig {
    pub name: String,
    pub start: String,
    pub end: String,
    pub kind: MemoryKindConfig,
}

/// Bits (hexadecimal) to set in the reset value of an RCC register.
#[derive(Debug, Clone)]
pub struct RccPatch {
    pub register: String,
    pub or_value: String,
}

/// The memory-region kind a target file's kind names.
pub open spec fn region_kind(k: MemoryKindConfig) -> MemoryRegionKind {
    match k {
        MemoryKindConfig::Flash => MemoryRegionKind::Flash,
        MemoryKindConfig::Ram => MemoryRegionKind::Ram,
        MemoryKindConfig::Peripheral => MemoryRegionKind::Peripheral,
        MemoryKindConfig::System => MemoryRegionKind::System,
    }
}

/// The CPU type a target file's CPU names.
pub open spec fn cpu_of(c: CpuTypeConfig) -> CpuType {
    match c {
        CpuTypeConfig::CortexM3 => CpuType::CortexM3,
        CpuTypeConfig::CortexM4 => CpuType::CortexM4,
    }
}

/// A memory region as plain values: name, start, end, kind.
pub open spec fn region_view(m: MemoryRegion) -> (Seq<char>, u64, u64, MemoryRegionKind) {
    (m.name@, m.range.start, m.range.end, m.kind)
}

/// The peripherals after the first `n` RCC patches, or the message of the first bad value.
pub open spec fn spec_patched(
    ps: Seq<(Seq<char>, u64, Seq<(Seq<char>, u64, u32, u64)>)>,
    patches: Seq<RccPatch>,
    n: int,
) -> Result<Seq<(Seq<char>, u64, Seq<(Seq<char>, u64, u32, u64)>)>, Seq<char>>
    decreases n,
{
    if n <= 0 {
        Ok(ps)
    } else {
        match spec_patched(ps, patches, n - 1) {
            Err(e) => Err(e),
            Ok(q) => match spec_parse_hex(patches[n - 1].or_value@) {
                Err(e) => Err("rcc_patches: invalid or_value '"@ + patches[n - 1].or_value@ + "': "@ + e),
                Ok(v) => Ok(patch_view(q, patches[n - 1].register@, v)),
            },
        }
    }
}

/// The first `n` memory regions, or the message of the first bad address.
pub open spec fn spec_regions(ms: Seq<MemoryRegionConfig>, n: int) -> Result<Seq<(Seq<char>, u64, u64, MemoryRegionKind)>, Seq<char>>
    decreases n,
{
    if n <= 0 {
        Ok(Seq::empty())
    } else {
        match spec_regions(ms, n - 1) {
            Err(e) => Err(e),
            Ok(rs) => match spec_parse_hex(ms[n - 1].start@) {
                Err(e) => Err(e),
                Ok(start) => match spec_parse_hex(ms[n - 1].end@) {
                    Err(e) => Err(e),
                    Ok(end) => Ok(rs.push((ms[n - 1].name@, start, end, region_kind(ms[n - 1].kind)))),
                },
            },
        }
    }
}

/// The parts of the target spec a target file and an SVD file give (peripherals, memory
/// regions, vector table base), or the message of the first error: of the SVD file, of an RCC
/// patch, of a memory region, of the vector table base.
pub open spec fn spec_build(c: TargetConfig, svd: Seq<char>) -> Result<
    (Seq<(Seq<char>, u64, Seq<(Seq<char>, u64, u32, u64)>)>, Seq<(Seq<char>, u64, u64, MemoryRegionKind)>, u64),
    Seq<char>,
> {
    match spec_parse_svd(svd) {
        Err(e) => Err("SVD parse error: "@ + e),
        Ok((_, ps)) => match spec_patched(ps, c.rcc_patches@, c.rcc_patches@.len() as int) {
            Err(e) => Err(e),
            Ok(ps2) => match spec_regions(c.memory_map@, c.memory_map@.len() as int) {
                Err(e) => Err(e),
                Ok(rs) => match spec_parse_hex(c.vector_table_base@) {
                    Err(e) => Err("invalid vector_table_base '"@ + c.vector_table_base@ + "': "@ + e),
                    Ok(vtb) => Ok((ps2, rs, vtb)),
                },
            },
        },
    }
}

proof fn lemma_patched_error(ps: Seq<(Seq<char>, u64, Seq<(Seq<char>, u64, u32, u64)>)>, patches: Seq<RccPatch>, k: int, n: int)
    requires
        k <= n,
        spec_patched(ps, patches, k) is Err,
    ensures
        spec_patched(ps, patches, n) == spec_patched(ps, patches, k),
    decreases n - k,
{
    if k < n {
        lemma_patched_error(ps, patches, k, n - 1);
    }
}

proof fn lemma_regions_error(ms: Seq<MemoryRegionConfig>, k: int, n: int)
    requires
        k <= n,
        spec_regions(ms, k) is Err,
    ensures
        spec_regions(ms, n) == spec_regions(ms, k),
    decreases n - k,
{
    if k < n {
        lemma_regions_error(ms, k, n - 1);
    }
}

/// `a`, `b`, `c` and `d` joined.
fn join4(a: &str, b: &str, c: &str, d: &str) -> (r: String)
    ensures
        r@ == a@ + b@ + c@ + d@,
{
    let head = concat3(a, b, c);
    let r = concat3(head.as_str(), d, "");
    proof {
        reveal_strlit("");
        assert(r@ =~= a@ + b@ + c@ + d@);
    }
    r
}

impl TargetConfig {
    /// The target spec of this target with the peripherals of `svd_xml`, its RCC patches
    /// applied.
    pub fn build_target_spec(&self, svd_xml: &str) -> (r: Result<TargetSpec, String>)
        ensures
            match spec_build(*self, svd_xml@) {
                Err(m) => r matches Err(e) && e@ == m,
                Ok((ps, rs, vtb)) => r matches Ok(t) && {
                    &&& t.name@ == self.name@
                    &&& t.architecture == ArchitectureId::ArmV7M
                    &&& t.cpu_type == cpu_of(self.cpu_type)
                    &&& t.vector_table_base == vtb
                    &&& t.core_clock_hz == self.core_clock_hz
                    &&& t.hsi_hz == self.hsi_hz
                    &&& t.has_pllcfgr == self.has_pllcfgr
                    &&& t.systick_reload_divider == self.systick_reload_divider
                    &&& t.memory_map@.map_values(|m: MemoryRegion| region_view(m)) == rs
                    &&& t.peripherals@.map_values(|p: PeripheralSpec| periph_view(p)) == ps
                },
            },
    {
        proof {
            reveal_strlit("");
        }
        let dev = match parse_svd(svd_xml) {
            Ok(d) => d,
            Err(e) => {
                let msg = concat3("SVD parse error: ", e.as_str(), "");
                assert(msg@ =~= "SVD parse error: "@ + e@);
                return Err(msg);
            },
        };
        let mut peripherals = dev.peripherals;
        let ghost ps0 = peripherals@.map_values(|p: PeripheralSpec| periph_view(p));
        let mut i: usize = 0;
        while i < self.rcc_patches.len()
            invariant
                i <= self.rcc_patches@.len(),
                spec_parse_svd(svd_xml@) matches Ok((_, ps)) && ps == ps0,
                spec_patched(ps0, self.rcc_patches@, i as int) == Ok::<
                    Seq<(Seq<char>, u64, Seq<(Seq<char>, u64, u32, u64)>)>,
                    Seq<char>,
                >(peripherals@.map_values(|p: PeripheralSpec| periph_view(p))),
            decreases self.rcc_patches@.len() - i,
        {
            let patch = &self.rcc_patches[i];
            let v = match parse_hex(patch.or_value.as_str()) {
                Ok(v) => v,
                Err(e) => {
                    proof {
                        lemma_patched_error(ps0, self.rcc_patches@, i + 1, self.rcc_patches@.len() as int);
                    }
                    return Err(join4("rcc_patches: invalid or_value '", patch.or_value.as_str(), "': ", e.as_str()));
                },
            };
            apply_rcc_patch(&mut peripherals, patch.register.as_str(), v);
            i = i + 1;
        }
        let mut memory_map: Vec<MemoryRegion> = Vec::new();
        let mut j: usize = 0;
        assert(memory_map@.map_values(|m: MemoryRegion| region_view(m)) =~= Seq::empty());
        let ghost ps2 = peripherals@.map_values(|p: PeripheralSpec| periph_view(p));
        let ghost whole = spec_build(*self, svd_xml@);
        assert(whole == match spec_regions(self.memory_map@, self.memory_map@.len() as int) {
            Err(e) => Err(e),
            Ok(rs) => match spec_parse_hex(self.vector_table_base@) {
                Err(e) => Err("invalid vector_table_base '"@ + self.vector_table_base@ + "': "@ + e),
                Ok(vtb) => Ok((ps2, rs, vtb)),
            },
        });
        while j < self.memory_map.len()
            invariant
                whole == spec_build(*self, svd_xml@),
                whole == match spec_regions(self.memory_map@, self.memory_map@.len() as int) {
                    Err(e) => Err(e),
                    Ok(rs) => match spec_parse_hex(self.vector_table_base@) {
                        Err(e) => Err("invalid vector_table_base '"@ + self.vector_table_base@ + "': "@ + e),
                        Ok(vtb) => Ok((ps2, rs, vtb)),
                    },
                },
                j <= self.memory_map@.len(),
                spec_regions(self.memory_map@, j as int) == Ok::<Seq<(Seq<char>, u64, u64, MemoryRegionKind)>, Seq<char>>(
                    memory_map@.map_values(|m: MemoryRegion| region_view(m)),
                ),
            decreases self.memory_map@.len() - j,
        {
            let m = &self.memory_map[j];
            let start = match parse_hex(m.start.as_str()) {
                Ok(v) => v,
                Err(e) => {
                    proof {
                        lemma_regions_error(self.memory_map@, j + 1, self.memory_map@.len() as int);
                    }
                    return Err(e);
                },
            };
            let end = match parse_hex(m.end.as_str()) {
                Ok(v) => v,
                Err(e) => {
                    proof {
                        lemma_regions_error(self.memory_map@, j + 1, self.memory_map@.len() as int);
                    }
                    return Err(e);
                },
            };
            let kind = match m.kind {
                MemoryKindConfig::Flash => MemoryRegionKind::Flash,
                MemoryKindConfig::Ram => MemoryRegionKind::Ram,
                MemoryKindConfig::Peripheral => MemoryRegionKind::Peripheral,
                MemoryKindConfig::System => MemoryRegionKind::System,
            };
            let region = MemoryRegion { name: m.name.clone(), range: start..end, kind };
            let ghost before = memory_map@;
            memory_map.push(region);
            assert(memory_map@.map_values(|m: MemoryRegion| region_view(m)) =~= before.map_values(
                |m: MemoryRegion| region_view(m),
            ).push(region_view(region)));
            j = j + 1;
        }
        let cpu_type = match self.cpu_type {
            CpuTypeConfig::CortexM3 => CpuType::CortexM3,
            CpuTypeConfig::CortexM4 => CpuType::CortexM4,
        };
        let vector_table_base = match parse_hex(self.vector_table_base.as_str()) {
            Ok(v) => v,
            Err(e) => return Err(join4("invalid vector_table_base '", self.vector_table_base.as_str(), "': ", e.as_str())),
        };
        Ok(TargetSpec {
            name: self.name.clone(),
            architecture: ArchitectureId::ArmV7M,
            cpu_type,
            vector_table_base,
            core_clock_hz: self.core_clock_hz,
            hsi_hz: self.hsi_hz,
            has_pllcfgr: self.has_pllcfgr,
            systick_reload_divider: self.systick_reload_divider,
            memory_map,
            peripherals,
        })
    }
}

} // verus!
