//! Real-time pacing of the emulated CPU: how far emulated time is ahead of or behind the host
//! clock, and what to do about it.
use vstd::prelude::*;

verus! {

/// What the runner should do after a batch of steps.
#[derive(Debug, Clone, Copy, PartialEq, Eq, Structural)]
pub enum PacerAction {
    /// Nothing: keep running.
    Continue,
    /// The emulation fell behind: advance SysTick by this many extra ticks.
    CatchUp(u64),
    /// The emulation is ahead: sleep this many nanoseconds.
    Sleep(u64),
}

/// Real-time pacer: every step stands for `cycles_per_step` core cycles; at checkpoints
/// (every `checkpoint_interval` steps) emulated time is compared with host time.
#[derive(Debug, Clone)]
pub struct RealtimePacer {
    pub expected_elapsed_nanos: u128,
    pub nanos_per_step: Option<u128>,
    pub step_count: u64,
    pub cycles_per_step: u32,
    pub checkpoint_interval: u64,
    pub enabled: bool,
}

/// Nanoseconds one step takes at `core_clock_hz` (rounded up), if both are nonzero.
pub open spec fn step_nanos(core_clock_hz: u32, cycles_per_step: u32) -> Option<u128> {
    if core_clock_hz == 0 || cycles_per_step == 0 {
        None
    } else {
        let num = cycles_per_step as int * 1_000_000_000;
        Some(((num + core_clock_hz - 1) / (core_clock_hz as int)) as u128)
    }
}

fn nanos_per_step_of(core_clock_hz: u32, cycles_per_step: u32) -> (r: Option<u128>)
    ensures
        r == step_nanos(core_clock_hz, cycles_per_step),
        r matches Some(v) ==> v <= 0xFFFF_FFFFu128 * 1_000_000_000u128,
{
    if core_clock_hz == 0 || cycles_per_step == 0 {
        None
    } else {
        let num: u128 = (cycles_per_step as u128) * 1_000_000_000u128;
        let d = core_clock_hz as u128;
        let t = num + d - 1;
        let q = t / d;
        assert(q <= num) by (nonlinear_arith)
            requires
                d >= 1,
                num >= 1,
                t == num + d - 1,
                q == t / d,
        ;
        Some(q)
    }
}

/// `a + b`, or `u128::MAX` where the sum does not fit.
pub open spec fn sat_add128(a: u128, b: u128) -> u128 {
    if a + b > u128::MAX { u128::MAX } else { (a + b) as u128 }
}

/// `a * b`, or `u128::MAX` where the product does not fit.
pub open spec fn sat_mul128(a: u128, b: u128) -> u128 {
    if a * b > u128::MAX { u128::MAX } else { (a * b) as u128 }
}

fn add_sat128(a: u128, b: u128) -> (r: u128)
    ensures
        r == sat_add128(a, b),
{
    match a.checked_add(b) {
        Some(v) => v,
        None => u128::MAX,
    }
}

fn mul_sat128(a: u128, b: u128) -> (r: u128)
    ensures
        r == sat_mul128(a, b),
{
    match a.checked_mul(b) {
        Some(v) => v,
        None => u128::MAX,
    }
}

/// The pacer and action after `n` more steps, when the host clock reads `elapsed` nanoseconds
/// since the start: disabled, nothing; otherwise the steps count, and at a checkpoint the
/// emulation catches up with SysTick ticks when behind and sleeps when ahead.
pub open spec fn pacer_step(p: RealtimePacer, n: u32, elapsed: u128) -> (RealtimePacer, PacerAction) {
    if !p.enabled {
        (p, PacerAction::Continue)
    } else {
        let count: u64 = if p.step_count + n > u64::MAX { u64::MAX } else { (p.step_count + n) as u64 };
        let expected = match p.nanos_per_step {
            Some(nps) => sat_add128(p.expected_elapsed_nanos, (nps * n) as u128),
            None => p.expected_elapsed_nanos,
        };
        let p1 = RealtimePacer { step_count: count, expected_elapsed_nanos: expected, ..p };
        if p.checkpoint_interval == 0 || count % p.checkpoint_interval >= n || p.nanos_per_step is None {
            (p1, PacerAction::Continue)
        } else {
            let nps = p.nanos_per_step->0;
            if expected <= elapsed {
                if nps == 0 {
                    (p1, PacerAction::Continue)
                } else {
                    let extra = (elapsed - expected) / (nps as int);
                    if extra > 0 {
                        let gained = sat_mul128(extra as u128, nps);
                        (
                            RealtimePacer { expected_elapsed_nanos: sat_add128(expected, gained), ..p1 },
                            PacerAction::CatchUp(if extra > u64::MAX { u64::MAX } else { extra as u64 }),
                        )
                    } else {
                        (p1, PacerAction::Continue)
                    }
                }
            } else {
                let remaining = expected - elapsed;
                (p1, PacerAction::Sleep(if remaining > u64::MAX { u64::MAX } else { remaining as u64 }))
            }
        }
    }
}

impl RealtimePacer {
    /// A step takes at most as long as `u32::MAX` cycles at 1 Hz.
    pub open spec fn wf(&self) -> bool {
        self.nanos_per_step matches Some(v) ==> v <= 0xFFFF_FFFFu128 * 1_000_000_000u128
    }

    /// A pacer for `cycles_per_step` cycles per step at `core_clock_hz`, enabled, with a
    /// checkpoint every 64 steps.
    pub fn new(core_clock_hz: u32, cycles_per_step: u32) -> (r: Self)
        ensures
            r.wf(),
            r.nanos_per_step == step_nanos(core_clock_hz, cycles_per_step),
            r.expected_elapsed_nanos == 0,
            r.step_count == 0,
            r.cycles_per_step == cycles_per_step,
            r.checkpoint_interval == 64,
            r.enabled,
    {
        RealtimePacer {
            expected_elapsed_nanos: 0,
            nanos_per_step: nanos_per_step_of(core_clock_hz, cycles_per_step),
            step_count: 0,
            cycles_per_step,
            checkpoint_interval: 64,
            enabled: true,
        }
    }

    pub fn set_enabled(&mut self, enabled: bool)
        ensures
            *final(self) == (RealtimePacer { enabled, ..*old(self) }),
    {
        self.enabled = enabled;
    }

    /// The core clock changed: steps now take a different time.
    pub fn set_core_clock_hz(&mut self, core_clock_hz: u32)
        ensures
            final(self).wf(),
            *final(self) == (RealtimePacer {
                nanos_per_step: step_nanos(core_clock_hz, old(self).cycles_per_step),
                ..*old(self)
            }),
    {
        self.nanos_per_step = nanos_per_step_of(core_clock_hz, self.cycles_per_step);
    }

    /// `n` more steps ran and the host clock reads `elapsed` nanoseconds since the start (see
    /// `pacer_step`).
    pub fn on_steps(&mut self, n: u32, elapsed: u128) -> (r: PacerAction)
        requires
            old(self).wf(),
        ensures
            final(self).wf(),
            (*final(self), r) == pacer_step(*old(self), n, elapsed),
    {
        if !self.enabled {
            return PacerAction::Continue;
        }
        self.step_count = self.step_count.saturating_add(n as u64);
        match self.nanos_per_step {
            Some(nps) => {
                assert(nps * n <= 0xFFFF_FFFFu128 * 1_000_000_000u128 * 0xFFFF_FFFFu128) by (nonlinear_arith)
                    requires
                        nps <= 0xFFFF_FFFFu128 * 1_000_000_000u128,
                        n <= 0xFFFF_FFFFu32,
                ;
                let add = nps * (n as u128);
                self.expected_elapsed_nanos = add_sat128(self.expected_elapsed_nanos, add);
            },
            None => {},
        }
        if self.checkpoint_interval == 0 || self.step_count % self.checkpoint_interval >= n as u64 {
            return PacerAction::Continue;
        }
        let nps = match self.nanos_per_step {
            Some(v) => v,
            None => return PacerAction::Continue,
        };
        let expected = self.expected_elapsed_nanos;
        if expected <= elapsed {
            if nps == 0 {
                return PacerAction::Continue;
            }
            let extra = (elapsed - expected) / nps;
            if extra > 0 {
                let gained = mul_sat128(extra, nps);
                self.expected_elapsed_nanos = add_sat128(expected, gained);
                return PacerAction::CatchUp(if extra > u64::MAX as u128 { u64::MAX } else { extra as u64 });
            }
            return PacerAction::Continue;
        }
        let remaining = expected - elapsed;
        PacerAction::Sleep(if remaining > u64::MAX as u128 { u64::MAX } else { remaining as u64 })
    }
}

} // verus!
