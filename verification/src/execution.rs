//! Running the machine in batches, and GPIO/ADC address lookups in a target's peripherals.
use crate::cpu::CpuCore;
use crate::machine::sysbus::MachineBus;
use crate::bus::traits::ok_value;
use crate::machine::sysbus::{bus_read8, bus_write8};
use crate::machine::{Machine, machine_step};
use crate::target::{PeripheralSpec, RegisterSpec};
use crate::text::{
    ascii_upper, char_message, char_upper, concat3, contains_seq, contains_str, decimal,
    decimal_message, eq_ignore_ascii_case, eq_ignore_case, has_prefix, starts_with, str_eq,
};
use vstd::prelude::*;

verus! {

/// The batch sizes a controller uses.
pub open spec fn is_batch_size(v: usize) -> bool {
    v == 1 || v == 10 || v == 100 || v == 1_000 || v == 5_000 || v == 10_000
}

/// The largest batch size not above `v` (at least 1).
pub open spec fn spec_normalize_batch(v: usize) -> usize {
    if v >= 10_000 {
        10_000
    } else if v >= 5_000 {
        5_000
    } else if v >= 1_000 {
        1_000
    } else if v >= 100 {
        100
    } else if v >= 10 {
        10
    } else {
        1
    }
}

/// The batch size tried after a retryable failure with `v`.
pub open spec fn spec_next_smaller_batch(v: usize) -> usize {
    if v > 5_000 {
        5_000
    } else if v > 1_000 {
        1_000
    } else if v > 100 {
        100
    } else if v > 10 {
        10
    } else {
        1
    }
}

/// The batch size used after enough full batches with `v`.
pub open spec fn spec_next_larger_batch(v: usize) -> usize {
    if v < 10 {
        10
    } else if v < 100 {
        100
    } else if v < 1_000 {
        1_000
    } else if v < 5_000 {
        5_000
    } else {
        10_000
    }
}

/// Full batches in a row after which the batch grows.
pub const GROW_AFTER: u8 = 8;

/// Whether a step error is worth retrying with a smaller batch: a mapping fault or an
/// exception.
pub open spec fn is_retryable(err: Seq<char>) -> bool {
    contains_seq(err, ": MAP"@) || contains_seq(err, " MAP"@) || contains_seq(err, "EXCEPTION"@)
}

/// Whether `err` is worth retrying with a smaller batch (see `is_retryable`).
pub fn is_retryable_error(err: &str) -> (r: bool)
    ensures
        r == is_retryable(err@),
{
    contains_str(err, ": MAP") || contains_str(err, " MAP") || contains_str(err, "EXCEPTION")
}

/// Adaptive CPU step batch controller: retries with smaller batches after mapping and
/// exception faults, and grows the batch after `GROW_AFTER` full batches in a row.
pub struct StepBatchController {
    current: usize,
    grow_success: u8,
}

/// Controller state `(current, grow_success)` after a successful batch of size `batch` that ran
/// `ran` steps, starting from a success count `grow`.
pub open spec fn after_success(batch: usize, grow: u8, ran: u32) -> (usize, u8) {
    if ran >= batch {
        let g: u8 = if grow == 255 { 255u8 } else { (grow + 1) as u8 };
        if g >= GROW_AFTER {
            (spec_next_larger_batch(batch), 0u8)
        } else {
            (batch, g)
        }
    } else {
        (batch, 0u8)
    }
}

/// Controller state after a successful batch of size `b` that ran `ran` steps, in a call that
/// started from batch `start` with success count `grow` (retries reset the count).
pub open spec fn batch_outcome(start: usize, grow: u8, b: usize, ran: u32) -> (usize, u8) {
    after_success(b, if b == start { grow } else { 0u8 }, ran)
}

impl StepBatchController {
    pub closed spec fn spec_current(&self) -> usize {
        self.current
    }

    pub closed spec fn spec_grow(&self) -> u8 {
        self.grow_success
    }

    /// The controller's invariant: a known batch size and fewer full batches than trigger
    /// growth.
    pub open spec fn wf(&self) -> bool {
        is_batch_size(self.spec_current()) && self.spec_grow() < GROW_AFTER
    }

    pub fn new(initial: usize) -> (r: Self)
        ensures
            r.wf(),
            r.spec_current() == spec_normalize_batch(initial),
            r.spec_grow() == 0,
    {
        StepBatchController { current: normalize_batch(initial), grow_success: 0 }
    }

    /// The batch size the next call starts with.
    pub fn current_batch(&self) -> (r: usize)
        ensures
            r == self.spec_current(),
    {
        self.current
    }

    /// Runs one batch of `self.current` steps; after a retryable error it retries with ever
    /// smaller batches. On success the batch that ran becomes current and may grow.
    pub fn step_cpu<C: CpuCore<MachineBus>>(&mut self, machine: &mut Machine<C>) -> (r: Result<u32, String>)
        requires
            old(self).wf(),
            old(machine).wf(),
        ensures
            final(self).wf(),
            final(machine).wf(),
            final(machine).spec_target() == old(machine).spec_target(),
            match r {
                Ok(ran) => exists|n: nat, mid: Machine<C>|
                    #[trigger] retried(*old(machine), old(self).spec_current(), n, mid)
                        && ran == batch_attempt(old(self).spec_current(), n)
                        && steps_ok(mid, ran as nat, *final(machine))
                        && batch_outcome(old(self).spec_current(), old(self).spec_grow(), ran as usize, ran)
                            == (final(self).spec_current(), final(self).spec_grow()),
                Err(e) => exists|n: nat, mid: Machine<C>|
                    #[trigger] retried(*old(machine), old(self).spec_current(), n, mid)
                        && failed_batch(mid, batch_attempt(old(self).spec_current(), n), *final(machine))
                        && (!is_retryable(e@) || batch_attempt(old(self).spec_current(), n) == 1)
                        && final(self).spec_current() == old(self).spec_current()
                        && final(self).spec_grow() == if n == 0 && !is_retryable(e@) {
                            old(self).spec_grow()
                        } else {
                            0u8
                        },
            },
    {
        let mut batch = self.current;
        let ghost start = self.current;
        let ghost mut n: nat = 0;
        let ghost mut trace: Seq<Machine<C>> = seq![*machine];
        loop
            invariant
                old(self).wf(),
                start == old(self).spec_current(),
                is_batch_size(batch),
                batch <= old(self).spec_current(),
                batch == batch_attempt(start, n),
                self.current == old(self).spec_current(),
                self.grow_success < GROW_AFTER,
                n == 0 ==> self.grow_success == old(self).spec_grow(),
                n > 0 ==> self.grow_success == 0,
                batch != old(self).spec_current() ==> n > 0,
                n > 0 ==> batch < start,
                machine.wf(),
                machine.spec_target() == old(machine).spec_target(),
                trace.len() == n + 1,
                trace[0] == *old(machine),
                trace[n as int] == *machine,
                retry_chain(start, trace),
            decreases batch,
        {
            let ghost before = *machine;
            match run_batch(machine, batch) {
                Ok(ran) => {
                    let ghost g0 = self.grow_success;
                    self.current = batch;
                    if (ran as usize) >= batch {
                        self.grow_success = self.grow_success.saturating_add(1);
                        if self.grow_success >= GROW_AFTER {
                            self.current = next_larger_batch(self.current);
                            self.grow_success = 0;
                        }
                    } else {
                        self.grow_success = 0;
                    }
                    assert(after_success(batch, g0, ran) == (self.current, self.grow_success));
                    assert(batch_outcome(old(self).spec_current(), old(self).spec_grow(), batch, ran)
                        == (self.current, self.grow_success));
                    assert(retried(*old(machine), start, n, before));
                    return Ok(ran);
                },
                Err(err) => {
                    assert(failed_batch(before, batch, *machine));
                    if !is_retryable_error(&err) {
                        assert(retried(*old(machine), start, n, before));
                        return Err(err);
                    }
                    self.grow_success = 0;
                    let lower = next_smaller_batch(batch);
                    if lower == batch {
                        assert(retried(*old(machine), start, n, before));
                        return Err(err);
                    }
                    proof {
                        let t2 = trace.push(*machine);
                        assert forall|j: int| 0 <= j < t2.len() - 1 implies #[trigger] retry_link(
                            start,
                            j,
                            t2[j],
                            t2[j + 1],
                        ) by {
                            if j < trace.len() - 1 {
                                assert(t2[j] == trace[j] && t2[j + 1] == trace[j + 1]);
                                assert(retry_link(start, j, trace[j], trace[j + 1]));
                            }
                        }
                        trace = t2;
                        n = n + 1;
                    }
                    batch = lower;
                },
            }
        }
    }
}

/// The batch size of attempt `n` of a call that starts with `start`: each retry takes the next
/// smaller size.
pub open spec fn batch_attempt(start: usize, n: nat) -> usize
    decreases n,
{
    if n == 0 {
        start
    } else {
        spec_next_smaller_batch(batch_attempt(start, (n - 1) as nat))
    }
}

/// A batch of `batch` steps failed: fewer than `batch` successful steps lead from `m` to a
/// machine whose next step failed, giving `m2`.
pub open spec fn failed_batch<C: CpuCore<MachineBus>>(m: Machine<C>, batch: usize, m2: Machine<C>) -> bool {
    exists|k: nat, mid: Machine<C>| k < batch && #[trigger] steps_ok(m, k, mid) && machine_step(mid, false, m2)
}

/// Attempt `j` (of a call starting with `start`) failed from `m` to `m2`, and its size could
/// still shrink.
pub open spec fn retry_link<C: CpuCore<MachineBus>>(start: usize, j: int, m: Machine<C>, m2: Machine<C>) -> bool {
    &&& j >= 0
    &&& failed_batch(m, batch_attempt(start, j as nat), m2)
    &&& spec_next_smaller_batch(batch_attempt(start, j as nat)) != batch_attempt(start, j as nat)
}

/// Each machine of `trace` comes from the one before by a failed, retried attempt.
pub open spec fn retry_chain<C: CpuCore<MachineBus>>(start: usize, trace: Seq<Machine<C>>) -> bool {
    forall|j: int| 0 <= j < trace.len() - 1 ==> #[trigger] retry_link(start, j, trace[j], trace[j + 1])
}

/// `n` attempts of a call starting with batch `start` failed and were retried with smaller
/// batches, leading from `m` to `m2`.
pub open spec fn retried<C: CpuCore<MachineBus>>(m: Machine<C>, start: usize, n: nat, m2: Machine<C>) -> bool {
    exists|trace: Seq<Machine<C>>|
        trace.len() == n + 1 && trace[0] == m && trace[n as int] == m2 && #[trigger] retry_chain(start, trace)
}

/// Each machine of `trace` is reached from the one before it by a successful machine step.
pub open spec fn successful_steps<C: CpuCore<MachineBus>>(trace: Seq<Machine<C>>) -> bool {
    forall|i: int| 0 <= i < trace.len() - 1 ==> #[trigger] machine_step(trace[i], true, trace[i + 1])
}

/// `n` successful machine steps lead from `m` to `m2`.
pub open spec fn steps_ok<C: CpuCore<MachineBus>>(m: Machine<C>, n: nat, m2: Machine<C>) -> bool {
    exists|trace: Seq<Machine<C>>|
        trace.len() == n + 1 && trace[0] == m && trace[n as int] == m2 && #[trigger] successful_steps(trace)
}

/// Runs `batch` steps of the machine, stopping at the first error; on success the number of
/// steps run.
fn run_batch<C: CpuCore<MachineBus>>(machine: &mut Machine<C>, batch: usize) -> (r: Result<u32, String>)
    requires
        old(machine).wf(),
        batch <= 10_000,
    ensures
        final(machine).wf(),
        final(machine).spec_target() == old(machine).spec_target(),
        r matches Ok(ran) ==> ran == batch && steps_ok(*old(machine), batch as nat, *final(machine)),
        r is Err ==> failed_batch(*old(machine), batch, *final(machine)),
{
    let mut i: usize = 0;
    let ghost mut trace: Seq<Machine<C>> = seq![*machine];
    while i < batch
        invariant
            i <= batch,
            batch <= 10_000,
            machine.wf(),
            machine.spec_target() == old(machine).spec_target(),
            trace.len() == i + 1,
            trace[0] == *old(machine),
            trace[i as int] == *machine,
            successful_steps(trace),
        decreases batch - i,
    {
        let ghost prev = *machine;
        match machine.step_cpu() {
            Ok(()) => {
                proof {
                    let t2 = trace.push(*machine);
                    assert forall|j: int| 0 <= j < t2.len() - 1 implies #[trigger] machine_step(t2[j], true, t2[j + 1]) by {
                        if j < trace.len() - 1 {
                            assert(t2[j] == trace[j] && t2[j + 1] == trace[j + 1]);
                        }
                    }
                    trace = t2;
                }
            },
            Err(e) => {
                assert(steps_ok(*old(machine), i as nat, prev));
                return Err(e);
            },
        }
        i = i + 1;
    }
    assert(steps_ok(*old(machine), batch as nat, *machine));
    Ok(batch as u32)
}

fn normalize_batch(v: usize) -> (r: usize)
    ensures
        r == spec_normalize_batch(v),
{
    if v >= 10_000 {
        10_000
    } else if v >= 5_000 {
        5_000
    } else if v >= 1_000 {
        1_000
    } else if v >= 100 {
        100
    } else if v >= 10 {
        10
    } else {
        1
    }
}

fn next_smaller_batch(v: usize) -> (r: usize)
    ensures
        r == spec_next_smaller_batch(v),
{
    if v > 5_000 {
        5_000
    } else if v > 1_000 {
        1_000
    } else if v > 100 {
        100
    } else if v > 10 {
        10
    } else {
        1
    }
}

fn next_larger_batch(v: usize) -> (r: usize)
    ensures
        r == spec_next_larger_batch(v),
{
    if v < 10 {
        10
    } else if v < 100 {
        100
    } else if v < 1_000 {
        1_000
    } else if v < 5_000 {
        5_000
    } else {
        10_000
    }
}

/// The port letter of a GPIO peripheral name (the character after "GPIO"), if the name starts
/// with "GPIO" and has one.
pub open spec fn spec_gpio_port_letter(name: Seq<char>) -> Option<char> {
    if has_prefix(name, "GPIO"@) && name.len() > 4 {
        Some(name[4])
    } else {
        None
    }
}

/// Extracts the port letter from a GPIO peripheral name ("GPIOA" gives 'A').
pub fn gpio_port_letter(name: &str) -> (r: Option<char>)
    ensures
        r == spec_gpio_port_letter(name@),
{
    proof {
        reveal_strlit("GPIO");
    }
    if starts_with(name, "GPIO") && name.unicode_len() > 4 {
        Some(name.get_char(4))
    } else {
        None
    }
}

/// The first peripheral of `ps` named `name` exactly.
pub open spec fn find_peripheral(ps: Seq<PeripheralSpec>, name: Seq<char>) -> Option<PeripheralSpec>
    decreases ps.len(),
{
    if ps.len() == 0 {
        None
    } else if ps[0].name@ == name {
        Some(ps[0])
    } else {
        find_peripheral(ps.drop_first(), name)
    }
}

/// The first peripheral of `ps` named `name` up to ASCII case.
pub open spec fn find_peripheral_ignore_case(ps: Seq<PeripheralSpec>, name: Seq<char>) -> Option<PeripheralSpec>
    decreases ps.len(),
{
    if ps.len() == 0 {
        None
    } else if eq_ignore_case(ps[0].name@, name) {
        Some(ps[0])
    } else {
        find_peripheral_ignore_case(ps.drop_first(), name)
    }
}

/// The first register of `rs` named `name` exactly.
pub open spec fn find_register(rs: Seq<RegisterSpec>, name: Seq<char>) -> Option<RegisterSpec>
    decreases rs.len(),
{
    if rs.len() == 0 {
        None
    } else if rs[0].name@ == name {
        Some(rs[0])
    } else {
        find_register(rs.drop_first(), name)
    }
}

/// Index of the first peripheral named `name` (exactly, or up to ASCII case).
fn position_of_peripheral(ps: &[PeripheralSpec], name: &str, ignore_case: bool) -> (r: Option<usize>)
    ensures
        match r {
            Some(i) => i < ps@.len() && Some(ps@[i as int]) == if ignore_case {
                find_peripheral_ignore_case(ps@, name@)
            } else {
                find_peripheral(ps@, name@)
            },
            None => (if ignore_case {
                find_peripheral_ignore_case(ps@, name@)
            } else {
                find_peripheral(ps@, name@)
            }) is None,
        },
{
    let mut i: usize = 0;
    assert(ps@.subrange(0, ps@.len() as int) =~= ps@);
    while i < ps.len()
        invariant
            i <= ps@.len(),
            !ignore_case ==> find_peripheral(ps@, name@) == find_peripheral(ps@.subrange(i as int, ps@.len() as int), name@),
            ignore_case ==> find_peripheral_ignore_case(ps@, name@) == find_peripheral_ignore_case(
                ps@.subrange(i as int, ps@.len() as int),
                name@,
            ),
        decreases ps@.len() - i,
    {
        let ghost tail = ps@.subrange(i as int, ps@.len() as int);
        assert(tail.drop_first() =~= ps@.subrange(i + 1, ps@.len() as int));
        assert(tail[0] == ps@[i as int]);
        let hit = if ignore_case {
            eq_ignore_ascii_case(ps[i].name.as_str(), name)
        } else {
            str_eq(ps[i].name.as_str(), name)
        };
        if hit {
            return Some(i);
        }
        i = i + 1;
    }
    assert(ps@.subrange(i as int, ps@.len() as int).len() == 0);
    None
}

/// Index of the first register named `name`.
fn position_of_register(rs: &Vec<RegisterSpec>, name: &str) -> (r: Option<usize>)
    ensures
        match r {
            Some(i) => i < rs@.len() && Some(rs@[i as int]) == find_register(rs@, name@),
            None => find_register(rs@, name@) is None,
        },
{
    let mut i: usize = 0;
    assert(rs@.subrange(0, rs@.len() as int) =~= rs@);
    while i < rs.len()
        invariant
            i <= rs@.len(),
            find_register(rs@, name@) == find_register(rs@.subrange(i as int, rs@.len() as int), name@),
        decreases rs@.len() - i,
    {
        let ghost tail = rs@.subrange(i as int, rs@.len() as int);
        assert(tail.drop_first() =~= rs@.subrange(i + 1, rs@.len() as int));
        assert(tail[0] == rs@[i as int]);
        if str_eq(rs[i].name.as_str(), name) {
            return Some(i);
        }
        i = i + 1;
    }
    assert(rs@.subrange(i as int, rs@.len() as int).len() == 0);
    None
}

/// The IDR address of GPIO `port`, derived from GPIOA (ports are 0x400 apart), when GPIOA and
/// its IDR are described: `Ok` or the message of the error.
pub open spec fn spec_gpio_idr_addr(port: char, ps: Seq<PeripheralSpec>) -> Result<int, Seq<char>> {
    match find_peripheral(ps, "GPIOA"@) {
        None => Err("GPIOA not found in target spec"@),
        Some(gpioa) => match find_register(gpioa.registers@, "IDR"@) {
            None => Err("IDR register not found in GPIOA"@),
            Some(idr) => Ok(
                gpioa.base_address + (ascii_upper(port) as int - 'A' as int) * 0x400 + (idr.address
                    - gpioa.base_address),
            ),
        },
    }
}

/// Computes the GPIO IDR register address of `port` from the target's peripherals.
pub fn gpio_idr_addr(port: char, peripherals: &[PeripheralSpec]) -> (r: Result<u64, String>)
    requires
        ascii_upper(port) >= 'A',
        spec_gpio_idr_addr(port, peripherals@) matches Ok(a) ==> a <= u64::MAX,
        find_peripheral(peripherals@, "GPIOA"@) matches Some(g) ==> (find_register(
            g.registers@,
            "IDR"@,
        ) matches Some(idr) ==> idr.address >= g.base_address),
    ensures
        match spec_gpio_idr_addr(port, peripherals@) {
            Ok(a) => r == Ok::<u64, String>(a as u64),
            Err(m) => r matches Err(e) && e@ == m,
        },
{
    let up = char_upper(port);
    let idx = (up as u32 - 'A' as u32) as u64;
    let gi = match position_of_peripheral(peripherals, "GPIOA", false) {
        Some(i) => i,
        None => return Err("GPIOA not found in target spec".to_owned()),
    };
    let gpioa = &peripherals[gi];
    let ri = match position_of_register(&gpioa.registers, "IDR") {
        Some(i) => i,
        None => return Err("IDR register not found in GPIOA".to_owned()),
    };
    let idr = &gpioa.registers[ri];
    let idr_offset = idr.address - gpioa.base_address;
    Ok(gpioa.base_address + idx * 0x400 + idr_offset)
}

/// The IDR word after an input on `pin` is driven to `high`: that bit set or cleared.
pub open spec fn injected_idr(word: u32, pin: u8, high: bool) -> u32 {
    if high {
        word | (1u32 << pin)
    } else {
        word & !(1u32 << pin)
    }
}

/// Driving input `pin` (0..31) of an IDR word sets that bit to `high` and keeps every other
/// bit.
pub proof fn lemma_injected_idr(word: u32, pin: u8, high: bool)
    requires
        pin < 32,
    ensures
        ((injected_idr(word, pin, high) >> pin) & 1 == 1) == high,
        forall|q: u32| q < 32 && q != pin ==> #[trigger] ((injected_idr(word, pin, high) >> q) & 1) == (word >> q) & 1,
{
    let w2 = injected_idr(word, pin, high);
    let p: u32 = pin as u32;
    if high {
        assert(w2 == word | (1u32 << p));
        assert(((word | (1u32 << p)) >> p) & 1 == 1 && forall|q: u32|
            q < 32 && q != p ==> #[trigger] (((word | (1u32 << p)) >> q) & 1) == (word >> q) & 1) by (bit_vector)
            requires p < 32;
    } else {
        assert(w2 == word & !(1u32 << p));
        assert(((word & !(1u32 << p)) >> p) & 1 == 0 && forall|q: u32|
            q < 32 && q != p ==> #[trigger] (((word & !(1u32 << p)) >> q) & 1) == (word >> q) & 1) by (bit_vector)
            requires p < 32;
    }
}

/// A read byte, 0 where the read failed.
pub open spec fn byte_or_zero(r: Option<u8>) -> u32 {
    match r {
        Some(b) => b as u32,
        None => 0,
    }
}

/// The little-endian word of four read bytes (a failed read counts as 0).
pub open spec fn le_word(r: Seq<Option<u8>>) -> u32 {
    byte_or_zero(r[0]) | (byte_or_zero(r[1]) << 8u32) | (byte_or_zero(r[2]) << 16u32) | (byte_or_zero(r[3])
        << 24u32)
}

/// Byte `k` (0..3, little-endian) of `w`.
pub open spec fn word_byte(w: u32, k: int) -> u8 {
    ((w >> ((8 * k) as u32)) & 0xFFu32) as u8
}

/// An input injection on the bus, step by step: `rb` are the buses across the four byte reads
/// of `addr..addr + 3` that gave `r`, and `wb` the buses across the four byte writes of the
/// injected word (with outcomes `oks`); it starts at `b0` and ends at `b1`.
pub open spec fn injection_trace(
    b0: MachineBus,
    addr: u64,
    pin: u8,
    high: bool,
    b1: MachineBus,
    rb: Seq<MachineBus>,
    r: Seq<Option<u8>>,
    wb: Seq<MachineBus>,
    oks: Seq<bool>,
) -> bool {
    &&& rb.len() == 5 && r.len() == 4 && wb.len() == 5 && oks.len() == 4
    &&& rb[0] == b0 && wb[0] == rb[4] && wb[4] == b1
    &&& forall|k: int| 0 <= k < 4 ==> #[trigger] bus_read8(rb[k], (addr + k) as u64, r[k], rb[k + 1])
    &&& forall|k: int| 0 <= k < 4 ==> #[trigger] bus_write8(
        wb[k],
        (addr + k) as u64,
        word_byte(injected_idr(le_word(r), pin, high), k),
        oks[k],
        wb[k + 1],
    )
}

/// The bus `b1` comes from `b0` by reading the IDR word at `addr` byte by byte, driving bit
/// `pin` to `high` and writing the word back byte by byte.
pub open spec fn idr_injected(b0: MachineBus, addr: u64, pin: u8, high: bool, b1: MachineBus) -> bool {
    exists|rb: Seq<MachineBus>, r: Seq<Option<u8>>, wb: Seq<MachineBus>, oks: Seq<bool>|
        #[trigger] injection_trace(b0, addr, pin, high, b1, rb, r, wb, oks)
}

/// Drives GPIO input `pin` of `port` to `high`, as a button does: the port's IDR word (found
/// by `gpio_idr_addr`) is read, the pin's bit set or cleared, and the word written back. An
/// unknown IDR gives its error and leaves the machine unchanged.
pub fn inject_gpio<C: CpuCore<MachineBus>>(
    machine: &mut Machine<C>,
    port: char,
    pin: u8,
    high: bool,
    peripherals: &[PeripheralSpec],
) -> (r: Result<(), String>)
    requires
        old(machine).wf(),
        pin < 32,
        ascii_upper(port) >= 'A',
        spec_gpio_idr_addr(port, peripherals@) matches Ok(a) ==> a + 3 <= u64::MAX,
        find_peripheral(peripherals@, "GPIOA"@) matches Some(g) ==> (find_register(
            g.registers@,
            "IDR"@,
        ) matches Some(idr) ==> idr.address >= g.base_address),
    ensures
        final(machine).wf(),
        final(machine).spec_cpu() == old(machine).spec_cpu(),
        match spec_gpio_idr_addr(port, peripherals@) {
            Ok(a) => r is Ok && idr_injected(old(machine).spec_bus(), a as u64, pin, high, final(machine).spec_bus()),
            Err(m) => r matches Err(e) && e@ == m && *final(machine) == *old(machine),
        },
{
    let addr = match gpio_idr_addr(port, peripherals) {
        Ok(a) => a,
        Err(e) => return Err(e),
    };
    let ghost b0 = machine.spec_bus();
    let r0 = machine.read8(addr);
    let ghost b1 = machine.spec_bus();
    let r1 = machine.read8(addr + 1);
    let ghost b2 = machine.spec_bus();
    let r2 = machine.read8(addr + 2);
    let ghost b3 = machine.spec_bus();
    let r3 = machine.read8(addr + 3);
    let ghost b4 = machine.spec_bus();
    let ghost rs = seq![ok_value(r0), ok_value(r1), ok_value(r2), ok_value(r3)];
    let x0: u32 = match r0 { Ok(b) => b as u32, Err(_) => 0 };
    let x1: u32 = match r1 { Ok(b) => b as u32, Err(_) => 0 };
    let x2: u32 = match r2 { Ok(b) => b as u32, Err(_) => 0 };
    let x3: u32 = match r3 { Ok(b) => b as u32, Err(_) => 0 };
    let word: u32 = x0 | (x1 << 8u32) | (x2 << 16u32) | (x3 << 24u32);
    assert(word == le_word(rs));
    let idr: u32 = if high { word | (1u32 << pin) } else { word & !(1u32 << pin) };
    assert(idr == injected_idr(le_word(rs), pin, high));
    let y0: u8 = (idr & 0xFF) as u8;
    let y1: u8 = ((idr >> 8u32) & 0xFF) as u8;
    let y2: u8 = ((idr >> 16u32) & 0xFF) as u8;
    let y3: u8 = ((idr >> 24u32) & 0xFF) as u8;
    assert(y0 == word_byte(idr, 0) && y1 == word_byte(idr, 1) && y2 == word_byte(idr, 2) && y3 == word_byte(idr, 3))
        by {
        assert(idr >> 0u32 == idr) by (bit_vector);
    }
    let w0 = machine.write8(addr, y0);
    let ghost c1 = machine.spec_bus();
    let w1 = machine.write8(addr + 1, y1);
    let ghost c2 = machine.spec_bus();
    let w2 = machine.write8(addr + 2, y2);
    let ghost c3 = machine.spec_bus();
    let w3 = machine.write8(addr + 3, y3);
    let ghost c4 = machine.spec_bus();
    proof {
        let rb = seq![b0, b1, b2, b3, b4];
        let wb = seq![b4, c1, c2, c3, c4];
        let oks = seq![w0 is Ok, w1 is Ok, w2 is Ok, w3 is Ok];
        assert forall|k: int| 0 <= k < 4 implies #[trigger] bus_read8(rb[k], (addr + k) as u64, rs[k], rb[k + 1]) by {
            if k == 0 {
                assert((addr + 0) as u64 == addr);
            }
        }
        assert forall|k: int| 0 <= k < 4 implies #[trigger] bus_write8(
            wb[k],
            (addr + k) as u64,
            word_byte(injected_idr(le_word(rs), pin, high), k),
            oks[k],
            wb[k + 1],
        ) by {
            if k == 0 {
                assert((addr + 0) as u64 == addr);
            }
        }
        assert(injection_trace(b0, addr, pin, high, c4, rb, rs, wb, oks));
    }
    Ok(())
}

/// The ADC channel of a GPIO pin (PA0-PA7 give 0-7, PB0-PB1 give 8-9, PC0-PC5 give 10-15),
/// if it has one.
pub open spec fn spec_adc_channel(port: char, pin: u8) -> Option<u8> {
    let p = ascii_upper(port);
    if p == 'A' && pin <= 7 {
        Some(pin)
    } else if p == 'B' && pin <= 1 {
        Some((8 + pin) as u8)
    } else if p == 'C' && pin <= 5 {
        Some((10 + pin) as u8)
    } else {
        None
    }
}

/// Maps a GPIO pin to its STM32 ADC channel number.
pub fn pin_to_adc_channel(port: char, pin: u8) -> (r: Result<u8, String>)
    ensures
        match spec_adc_channel(port, pin) {
            Some(ch) => r == Ok::<u8, String>(ch),
            None => r matches Err(e) && e@ == "GPIO"@ + seq![ascii_upper(port)] + decimal(pin as nat)
                + " has no ADC channel mapping"@,
        },
{
    let p = char_upper(port);
    if p == 'A' && pin <= 7 {
        Ok(pin)
    } else if p == 'B' && pin <= 1 {
        Ok(8 + pin)
    } else if p == 'C' && pin <= 5 {
        Ok(10 + pin)
    } else {
        let head = char_message("GPIO", p, "");
        let msg = decimal_message(head.as_str(), pin, " has no ADC channel mapping");
        proof {
            assert(head@ == "GPIO"@ + seq![p] + ""@);
            reveal_strlit("");
            assert(head@ =~= "GPIO"@ + seq![p]);
        }
        Err(msg)
    }
}

/// The address of register `reg` of the ADC `adc`, or the message of the error.
pub open spec fn adc_register(adc: PeripheralSpec, reg: Seq<char>) -> Result<u64, Seq<char>> {
    match find_register(adc.registers@, reg) {
        Some(r) => Ok(r.address),
        None => Err(reg + " register not found in "@ + adc.name@),
    }
}

/// The message when no ADC of the given name is described.
pub open spec fn adc_missing(name: Seq<char>) -> Seq<char> {
    "ADC peripheral '"@ + name + "' not found in target spec"@
}

/// Finds the ADC named `peripheral_name` (up to ASCII case) and the address of its register
/// `reg`.
fn adc_register_addr(adc: &PeripheralSpec, reg: &str) -> (r: Result<u64, String>)
    ensures
        match adc_register(*adc, reg@) {
            Ok(a) => r == Ok::<u64, String>(a),
            Err(m) => r matches Err(e) && e@ == m,
        },
{
    match position_of_register(&adc.registers, reg) {
        Some(i) => Ok(adc.registers[i].address),
        None => Err(concat3(reg, " register not found in ", adc.name.as_str())),
    }
}

/// Looks up the SR and DR register addresses of the ADC named `peripheral_name` (the name
/// compared up to ASCII case).
pub fn adc_sr_dr_addrs(peripheral_name: &str, peripherals: &[PeripheralSpec]) -> (r: Result<(u64, u64), String>)
    ensures
        match find_peripheral_ignore_case(peripherals@, peripheral_name@) {
            None => r matches Err(e) && e@ == adc_missing(peripheral_name@),
            Some(adc) => match (adc_register(adc, "SR"@), adc_register(adc, "DR"@)) {
                (Ok(sr), Ok(dr)) => r == Ok::<(u64, u64), String>((sr, dr)),
                (Err(m), _) => r matches Err(e) && e@ == m,
                (Ok(_), Err(m)) => r matches Err(e) && e@ == m,
            },
        },
{
    let ai = match position_of_peripheral(peripherals, peripheral_name, true) {
        Some(i) => i,
        None => return Err(concat3("ADC peripheral '", peripheral_name, "' not found in target spec")),
    };
    let adc = &peripherals[ai];
    let sr = adc_register_addr(adc, "SR")?;
    let dr = adc_register_addr(adc, "DR")?;
    Ok((sr, dr))
}

/// Looks up the SR, DR, SQR3 and CR2 register addresses of the ADC named `peripheral_name`
/// (the name compared up to ASCII case); SQR3 bits 4:0 hold the first conversion channel.
pub fn adc_regs_addrs(peripheral_name: &str, peripherals: &[PeripheralSpec]) -> (r: Result<(u64, u64, u64, u64), String>)
    ensures
        match find_peripheral_ignore_case(peripherals@, peripheral_name@) {
            None => r matches Err(e) && e@ == adc_missing(peripheral_name@),
            Some(adc) => match (
                adc_register(adc, "SR"@),
                adc_register(adc, "DR"@),
                adc_register(adc, "SQR3"@),
                adc_register(adc, "CR2"@),
            ) {
                (Ok(sr), Ok(dr), Ok(sqr3), Ok(cr2)) => r == Ok::<(u64, u64, u64, u64), String>(
                    (sr, dr, sqr3, cr2),
                ),
                (Err(m), _, _, _) => r matches Err(e) && e@ == m,
                (Ok(_), Err(m), _, _) => r matches Err(e) && e@ == m,
                (Ok(_), Ok(_), Err(m), _) => r matches Err(e) && e@ == m,
                (Ok(_), Ok(_), Ok(_), Err(m)) => r matches Err(e) && e@ == m,
            },
        },
{
    let ai = match position_of_peripheral(peripherals, peripheral_name, true) {
        Some(i) => i,
        None => return Err(concat3("ADC peripheral '", peripheral_name, "' not found in target spec")),
    };
    let adc = &peripherals[ai];
    let sr = adc_register_addr(adc, "SR")?;
    let dr = adc_register_addr(adc, "DR")?;
    let sqr3 = adc_register_addr(adc, "SQR3")?;
    let cr2 = adc_register_addr(adc, "CR2")?;
    Ok((sr, dr, sqr3, cr2))
}

} // verus!
