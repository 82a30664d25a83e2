//! Description of an emulated microcontroller: memory map, peripherals, clocks.
use crate::cpu::armv7m::CortexM3;
use crate::cpu::ArchitectureId;
use std::collections::BTreeMap;
use std::ops::Range;
use vstd::prelude::*;

verus! {

broadcast use vstd::std_specs::btree::group_btree_axioms;

/// A named address range of a given kind.
#[derive(Debug, PartialEq, Eq)]
pub struct MemoryRegion {
    pub name: String,
    pub range: Range<u64>,
    pub kind: MemoryRegionKind,
}

impl Clone for MemoryRegion {
    fn clone(&self) -> (r: Self)
        ensures
            r.name@ == self.name@,
            r.range == self.range,
            r.kind == self.kind,
    {
        MemoryRegion { name: self.name.clone(), range: self.range.start..self.range.end, kind: self.kind }
    }
}

impl MemoryRegion {
    /// Whether `addr` lies in `range` (start included, end excluded).
    pub fn contains(&self, addr: u64) -> (r: bool)
        ensures
            r == (self.range.start <= addr && addr < self.range.end),
    {
        self.range.start <= addr && addr < self.range.end
    }
}

/// What a memory region holds.
#[derive(Debug, Clone, Copy, PartialEq, Eq, Structural)]
pub enum MemoryRegionKind {
    Flash,
    Ram,
    Peripheral,
    System,
}

/// A peripheral register: its address, width and value after reset.
#[derive(Debug, Clone, PartialEq, Eq)]
pub struct RegisterSpec {
    pub name: String,
    pub address: u64,
    pub width_bits: u32,
    pub reset_value: u64,
}

/// A peripheral and its registers.
#[derive(Debug, Clone, PartialEq, Eq)]
pub struct PeripheralSpec {
    pub name: String,
    pub base_address: u64,
    pub registers: Vec<RegisterSpec>,
}

/// The CPU core a target uses.
#[derive(Debug, Clone, Copy, PartialEq, Eq, Structural)]
pub enum CpuType {
    CortexM3,
    CortexM4,
}

/// Everything the emulator needs to know about a target.
#[derive(Debug, Clone, PartialEq, Eq)]
pub struct TargetSpec {
    pub name: String,
    pub architecture: ArchitectureId,
    pub cpu_type: CpuType,
    pub vector_table_base: u64,
    pub core_clock_hz: u32,
    pub hsi_hz: u32,
    pub has_pllcfgr: bool,
    pub systick_reload_divider: u32,
    pub memory_map: Vec<MemoryRegion>,
    pub peripherals: Vec<PeripheralSpec>,
}

impl CpuType {
    /// A core for this CPU type. The Cortex-M4 core runs on the external engine, which is not
    /// part of this library, so it is refused.
    pub fn make_cpu(&self) -> (r: Result<CortexM3, String>)
        ensures
            r is Ok <==> *self == CpuType::CortexM3,
            r matches Ok(c) ==> c.legacy().wf() && c.legacy().registers@ == Seq::new(16, |i: int| 0u32),
    {
        match self {
            CpuType::CortexM3 => Ok(CortexM3::new()),
            CpuType::CortexM4 => Err("the Cortex-M4 core is not available in this build".to_string()),
        }
    }
}

/// (address, reset value) of every register of `regs`, in order.
pub open spec fn register_pairs(regs: Seq<RegisterSpec>) -> Seq<(u64, u64)> {
    Seq::new(regs.len(), |i: int| (regs[i].address, regs[i].reset_value))
}

/// (address, reset value) of every register of every peripheral of `ps`, in order.
pub open spec fn peripheral_pairs(ps: Seq<PeripheralSpec>) -> Seq<(u64, u64)>
    decreases ps.len(),
{
    if ps.len() == 0 {
        Seq::empty()
    } else {
        peripheral_pairs(ps.drop_last()) + register_pairs(ps.last().registers@)
    }
}

/// The map built by inserting `pairs` in order (a later pair wins).
pub open spec fn map_of_pairs(pairs: Seq<(u64, u64)>) -> Map<u64, u64>
    decreases pairs.len(),
{
    if pairs.len() == 0 {
        Map::empty()
    } else {
        map_of_pairs(pairs.drop_last()).insert(pairs.last().0, pairs.last().1)
    }
}

/// Register values by address, starting from the reset values.
#[derive(Debug, Default)]
pub struct RegisterValueSet {
    values: BTreeMap<u64, u64>,
}

impl RegisterValueSet {
    pub closed spec fn view_map(&self) -> Map<u64, u64> {
        self.values@
    }

    /// The reset value of every register of `spec`; where two registers share an address the
    /// later one wins.
    pub fn new(spec: &[PeripheralSpec]) -> (r: Self)
        ensures
            r.view_map() == map_of_pairs(peripheral_pairs(spec@)),
    {
        let mut values: BTreeMap<u64, u64> = BTreeMap::new();
        let mut p: usize = 0;
        while p < spec.len()
            invariant
                p <= spec@.len(),
                values@ == map_of_pairs(peripheral_pairs(spec@.take(p as int))),
            decreases spec@.len() - p,
        {
            let regs = &spec[p].registers;
            let ghost before = peripheral_pairs(spec@.take(p as int));
            let mut i: usize = 0;
            while i < regs.len()
                invariant
                    i <= regs@.len(),
                    regs@ == spec@[p as int].registers@,
                    p < spec@.len(),
                    values@ == map_of_pairs(before + register_pairs(regs@.take(i as int))),
                decreases regs@.len() - i,
            {
                let ghost pairs = before + register_pairs(regs@.take(i as int));
                values.insert(regs[i].address, regs[i].reset_value);
                proof {
                    let next = before + register_pairs(regs@.take(i + 1));
                    assert(next.drop_last() =~= pairs);
                    assert(next.last() == (regs@[i as int].address, regs@[i as int].reset_value));
                }
                i = i + 1;
            }
            proof {
                assert(regs@.take(regs@.len() as int) =~= regs@);
                assert(spec@.take(p + 1).drop_last() =~= spec@.take(p as int));
                assert(spec@.take(p + 1).last() == spec@[p as int]);
            }
            p = p + 1;
        }
        assert(spec@.take(spec@.len() as int) =~= spec@);
        RegisterValueSet { values }
    }

    /// The low byte of the register value at `addr`, if one is known.
    pub fn read8(&self, addr: u64) -> (r: Option<u8>)
        ensures
            r == (if self.view_map().contains_key(addr) {
                Some(self.view_map()[addr] as u8)
            } else {
                None
            }),
    {
        match self.values.get(&addr) {
            Some(v) => Some(*v as u8),
            None => None,
        }
    }

    /// Sets the register at `addr` to `value`; `false` (and no change) when no register is there.
    pub fn write8(&mut self, addr: u64, value: u8) -> (r: bool)
        ensures
            r == old(self).view_map().contains_key(addr),
            final(self).view_map() == if r {
                old(self).view_map().insert(addr, value as u64)
            } else {
                old(self).view_map()
            },
    {
        if self.values.contains_key(&addr) {
            self.values.insert(addr, value as u64);
            true
        } else {
            false
        }
    }
}

} // verus!
