//! General-purpose timers and the RCC clock tree they count from.
use crate::machine::meta::{MmioWriteEvent, RegisterMeta, logged, log_write};
use crate::machine::mmio::{mword, put_word, read_mmio_u32, write_mmio_u32, with_pending, nvic_pending_write};
use crate::target::TargetSpec;
use crate::text::{eq_ignore_ascii_case, eq_ignore_case, starts_with, has_prefix, str_eq};
use std::collections::HashMap;
use vstd::prelude::*;

verus! {

broadcast use vstd::std_specs::hash::group_hash_axioms;

/// Addresses of a timer's registers.
#[derive(Debug, Clone, Copy, PartialEq, Eq, Structural)]
pub struct TimerRegs {
    pub cr1: u64,
    pub dier: u64,
    pub sr: u64,
    pub cnt: u64,
    pub psc: u64,
    pub arr: u64,
}

/// A timer: its registers, its interrupt and the fraction of a counter tick carried over.
#[derive(Debug, Clone)]
pub struct TimerModel {
    pub peripheral: String,
    pub regs: TimerRegs,
    pub irq: Option<u8>,
    pub tick_residual: u64,
}

/// Addresses of the RCC registers the clock model reads.
#[derive(Debug, Clone, Copy, PartialEq, Eq, Structural)]
pub struct RccRegs {
    pub cr: u64,
    pub cfgr: u64,
    pub apb1enr: Option<u64>,
}

/// Index of the first of `ps` from `i` on whose name equals `name` up to ASCII case, or -1.
pub open spec fn find_peripheral(ps: Seq<crate::target::PeripheralSpec>, name: Seq<char>, i: int) -> int
    decreases ps.len() - i,
{
    if i < 0 || i >= ps.len() {
        -1
    } else if eq_ignore_case(ps[i].name@, name) {
        i
    } else {
        find_peripheral(ps, name, i + 1)
    }
}

/// Index of the first of `rs` from `i` on whose name equals `name` up to ASCII case, or -1.
pub open spec fn find_register(rs: Seq<crate::target::RegisterSpec>, name: Seq<char>, i: int) -> int
    decreases rs.len() - i,
{
    if i < 0 || i >= rs.len() {
        -1
    } else if eq_ignore_case(rs[i].name@, name) {
        i
    } else {
        find_register(rs, name, i + 1)
    }
}

/// Address of register `register` of the first peripheral named `peripheral` (both up to
/// ASCII case).
pub open spec fn spec_register_addr(ps: Seq<crate::target::PeripheralSpec>, peripheral: Seq<char>, register: Seq<char>) -> Option<u64> {
    let p = find_peripheral(ps, peripheral, 0);
    if p < 0 {
        None
    } else {
        let r = find_register(ps[p].registers@, register, 0);
        if r < 0 {
            None
        } else {
            Some(ps[p].registers@[r].address)
        }
    }
}

pub proof fn lemma_find_peripheral(ps: Seq<crate::target::PeripheralSpec>, name: Seq<char>, i: int)
    requires
        0 <= i,
    ensures
        find_peripheral(ps, name, i) == -1 || i <= find_peripheral(ps, name, i) < ps.len(),
    decreases ps.len() - i,
{
    if i < ps.len() && !eq_ignore_case(ps[i].name@, name) {
        lemma_find_peripheral(ps, name, i + 1);
    }
}

pub proof fn lemma_find_register(rs: Seq<crate::target::RegisterSpec>, name: Seq<char>, i: int)
    requires
        0 <= i,
    ensures
        find_register(rs, name, i) == -1 || i <= find_register(rs, name, i) < rs.len(),
    decreases rs.len() - i,
{
    if i < rs.len() && !eq_ignore_case(rs[i].name@, name) {
        lemma_find_register(rs, name, i + 1);
    }
}

pub fn resolve_register_addr(target: &TargetSpec, peripheral: &str, register: &str) -> (r: Option<u64>)
    ensures
        r == spec_register_addr(target.peripherals@, peripheral@, register@),
{
    let ps = &target.peripherals;
    let mut i: usize = 0;
    while i < ps.len()
        invariant
            i <= ps@.len(),
            ps@ == target.peripherals@,
            find_peripheral(ps@, peripheral@, 0) == find_peripheral(ps@, peripheral@, i as int),
        decreases ps@.len() - i,
    {
        if eq_ignore_ascii_case(ps[i].name.as_str(), peripheral) {
            assert(find_peripheral(ps@, peripheral@, i as int) == i);
            let rs = &ps[i].registers;
            let mut j: usize = 0;
            while j < rs.len()
                invariant
                    j <= rs@.len(),
                    i < ps@.len(),
                    ps@ == target.peripherals@,
                    rs@ == ps@[i as int].registers@,
                    find_peripheral(ps@, peripheral@, 0) == i,
                    find_register(rs@, register@, 0) == find_register(rs@, register@, j as int),
                decreases rs@.len() - j,
            {
                if eq_ignore_ascii_case(rs[j].name.as_str(), register) {
                    assert(find_register(rs@, register@, j as int) == j);
                    return Some(rs[j].address);
                }
                j = j + 1;
            }
            return None;
        }
        i = i + 1;
    }
    None
}

/// Interrupt number of a timer by name.
pub open spec fn spec_timer_irq(name: Seq<char>) -> Option<u8> {
    if name == "TIM1"@ {
        Some(25u8)
    } else if name == "TIM2"@ {
        Some(28u8)
    } else if name == "TIM3"@ {
        Some(29u8)
    } else if name == "TIM4"@ {
        Some(30u8)
    } else if name == "TIM5"@ {
        Some(50u8)
    } else if name == "TIM6"@ {
        Some(54u8)
    } else if name == "TIM7"@ {
        Some(55u8)
    } else {
        None
    }
}

pub fn timer_irq_number(peripheral: &str) -> (r: Option<u8>)
    ensures
        r == spec_timer_irq(peripheral@),
{
    if str_eq(peripheral, "TIM1") {
        Some(25)
    } else if str_eq(peripheral, "TIM2") {
        Some(28)
    } else if str_eq(peripheral, "TIM3") {
        Some(29)
    } else if str_eq(peripheral, "TIM4") {
        Some(30)
    } else if str_eq(peripheral, "TIM5") {
        Some(50)
    } else if str_eq(peripheral, "TIM6") {
        Some(54)
    } else if str_eq(peripheral, "TIM7") {
        Some(55)
    } else {
        None
    }
}

/// Enable bit (register, bit) of a timer in RCC APB1ENR: TIM2..TIM7 are bits 0..5.
pub open spec fn spec_timer_enable_bit(name: Seq<char>, rcc: RccRegs) -> Option<(u64, u8)> {
    let bit: Option<u8> = if name == "TIM2"@ {
        Some(0u8)
    } else if name == "TIM3"@ {
        Some(1u8)
    } else if name == "TIM4"@ {
        Some(2u8)
    } else if name == "TIM5"@ {
        Some(3u8)
    } else if name == "TIM6"@ {
        Some(4u8)
    } else if name == "TIM7"@ {
        Some(5u8)
    } else {
        None
    };
    match (bit, rcc.apb1enr) {
        (Some(b), Some(addr)) => Some((addr, b)),
        _ => None,
    }
}

pub fn timer_enable_bit(peripheral: &str, rcc: RccRegs) -> (r: Option<(u64, u8)>)
    ensures
        r == spec_timer_enable_bit(peripheral@, rcc),
{
    let bit: Option<u8> = if str_eq(peripheral, "TIM2") {
        Some(0)
    } else if str_eq(peripheral, "TIM3") {
        Some(1)
    } else if str_eq(peripheral, "TIM4") {
        Some(2)
    } else if str_eq(peripheral, "TIM5") {
        Some(3)
    } else if str_eq(peripheral, "TIM6") {
        Some(4)
    } else if str_eq(peripheral, "TIM7") {
        Some(5)
    } else {
        None
    };
    match (bit, rcc.apb1enr) {
        (Some(b), Some(addr)) => Some((addr, b)),
        _ => None,
    }
}

/// Timers of the target: every peripheral whose name starts with TIM and that has CR1, DIER,
/// SR, CNT, PSC and ARR registers, in order.
pub open spec fn timer_regs_of(ps: Seq<crate::target::PeripheralSpec>, name: Seq<char>) -> Option<TimerRegs> {
    match (
        spec_register_addr(ps, name, "CR1"@),
        spec_register_addr(ps, name, "DIER"@),
        spec_register_addr(ps, name, "SR"@),
        spec_register_addr(ps, name, "CNT"@),
        spec_register_addr(ps, name, "PSC"@),
        spec_register_addr(ps, name, "ARR"@),
    ) {
        (Some(cr1), Some(dier), Some(sr), Some(cnt), Some(psc), Some(arr)) => Some(
            TimerRegs { cr1, dier, sr, cnt, psc, arr },
        ),
        _ => None,
    }
}

/// The timer models of the first `n` peripherals of `ps`, as (name, registers) pairs.
pub open spec fn timers_of(ps: Seq<crate::target::PeripheralSpec>, n: int) -> Seq<(Seq<char>, TimerRegs)>
    decreases n,
{
    if n <= 0 || n > ps.len() {
        Seq::empty()
    } else {
        let rest = timers_of(ps, n - 1);
        let name = ps[n - 1].name@;
        if has_prefix(name, "TIM"@) && timer_regs_of(ps, name) is Some {
            rest.push((name, timer_regs_of(ps, name)->0))
        } else {
            rest
        }
    }
}

/// `models` are the timers of `ps`, each with its interrupt and no residual.
pub open spec fn models_match(models: Seq<TimerModel>, ps: Seq<crate::target::PeripheralSpec>) -> bool {
    let ts = timers_of(ps, ps.len() as int);
    &&& models.len() == ts.len()
    &&& forall|i: int|
        0 <= i < models.len() ==> {
            &&& (#[trigger] models[i]).peripheral@ == ts[i].0
            &&& models[i].regs == ts[i].1
            &&& models[i].irq == spec_timer_irq(ts[i].0)
            &&& models[i].tick_residual == 0
        }
}

pub fn resolve_timer_models(target: &TargetSpec) -> (r: Vec<TimerModel>)
    ensures
        models_match(r@, target.peripherals@),
{
    let ps = &target.peripherals;
    let mut models: Vec<TimerModel> = Vec::new();
    let mut i: usize = 0;
    while i < ps.len()
        invariant
            i <= ps@.len(),
            ps@ == target.peripherals@,
            models@.len() == timers_of(ps@, i as int).len(),
            forall|k: int|
                0 <= k < models@.len() ==> {
                    &&& (#[trigger] models@[k]).peripheral@ == timers_of(ps@, i as int)[k].0
                    &&& models@[k].regs == timers_of(ps@, i as int)[k].1
                    &&& models@[k].irq == spec_timer_irq(timers_of(ps@, i as int)[k].0)
                    &&& models@[k].tick_residual == 0
                },
        decreases ps@.len() - i,
    {
        let name = ps[i].name.as_str();
        if starts_with(name, "TIM") {
            let cr1 = resolve_register_addr(target, name, "CR1");
            let dier = resolve_register_addr(target, name, "DIER");
            let sr = resolve_register_addr(target, name, "SR");
            let cnt = resolve_register_addr(target, name, "CNT");
            let psc = resolve_register_addr(target, name, "PSC");
            let arr = resolve_register_addr(target, name, "ARR");
            match (cr1, dier, sr, cnt, psc, arr) {
                (Some(cr1), Some(dier), Some(sr), Some(cnt), Some(psc), Some(arr)) => {
                    models.push(
                        TimerModel {
                            peripheral: ps[i].name.clone(),
                            regs: TimerRegs { cr1, dier, sr, cnt, psc, arr },
                            irq: timer_irq_number(name),
                            tick_residual: 0,
                        },
                    );
                },
                _ => {},
            }
        }
        i = i + 1;
    }
    models
}

/// RCC register addresses, when the target has RCC CR and CFGR.
pub open spec fn spec_rcc_regs(ps: Seq<crate::target::PeripheralSpec>) -> Option<RccRegs> {
    match (spec_register_addr(ps, "RCC"@, "CR"@), spec_register_addr(ps, "RCC"@, "CFGR"@)) {
        (Some(cr), Some(cfgr)) => Some(RccRegs { cr, cfgr, apb1enr: spec_register_addr(ps, "RCC"@, "APB1ENR"@) }),
        _ => None,
    }
}

pub fn resolve_rcc_regs(target: &TargetSpec) -> (r: Option<RccRegs>)
    ensures
        r == spec_rcc_regs(target.peripherals@),
{
    let cr = resolve_register_addr(target, "RCC", "CR");
    let cfgr = resolve_register_addr(target, "RCC", "CFGR");
    match (cr, cfgr) {
        (Some(cr), Some(cfgr)) => Some(RccRegs { cr, cfgr, apb1enr: resolve_register_addr(target, "RCC", "APB1ENR") }),
        _ => None,
    }
}

} // verus!
