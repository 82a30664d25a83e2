//! The command-line run loop's decisions: when to stop, when to stream the machine's output
//! and when to print a heartbeat, by the number of steps run.
use vstd::prelude::*;

verus! {

/// Steps between streams of output in fast mode.
pub const FAST_STREAM_INTERVAL: u64 = 4096;

/// Steps between streams of output in real-time mode.
pub const REALTIME_STREAM_INTERVAL: u64 = 64;

/// Steps between heartbeats in fast mode.
pub const FAST_HEARTBEAT_INTERVAL: u64 = 250_000;

/// Steps between heartbeats in real-time mode.
pub const REALTIME_HEARTBEAT_INTERVAL: u64 = 50_000;

/// What to do after a batch of steps.
#[derive(Debug, Clone, Copy, PartialEq, Eq, Structural)]
pub struct BatchDecision {
    /// Stream the machine's new output (serial, MMIO writes, frames).
    pub stream: bool,
    /// Print a heartbeat line.
    pub heartbeat: bool,
    /// The step limit is reached: stop running.
    pub stop: bool,
}

/// The state of the run loop: steps run, the step limit, and the stream and heartbeat
/// schedules.
pub struct RunControl {
    max_steps: Option<u64>,
    steps: u64,
    since_stream: u64,
    stream_interval: u64,
    next_heartbeat: u64,
    heartbeat_interval: u64,
}

/// Whether `steps` reaches the limit `max_steps`.
pub open spec fn limit_reached(max_steps: Option<u64>, steps: u64) -> bool {
    max_steps matches Some(m) && steps >= m
}

impl RunControl {
    pub closed spec fn spec_max_steps(&self) -> Option<u64> {
        self.max_steps
    }

    pub closed spec fn spec_steps(&self) -> u64 {
        self.steps
    }

    /// Steps run since output was last streamed.
    pub closed spec fn spec_since_stream(&self) -> u64 {
        self.since_stream
    }

    pub closed spec fn spec_stream_interval(&self) -> u64 {
        self.stream_interval
    }

    /// The step count at which the next heartbeat is due.
    pub closed spec fn spec_next_heartbeat(&self) -> u64 {
        self.next_heartbeat
    }

    pub closed spec fn spec_heartbeat_interval(&self) -> u64 {
        self.heartbeat_interval
    }

    /// A run with at most `max_steps` steps (none: no limit); fast mode streams and beats less
    /// often.
    pub fn new(max_steps: Option<u64>, fast_mode: bool) -> (r: Self)
        ensures
            r.spec_max_steps() == max_steps,
            r.spec_steps() == 0,
            r.spec_since_stream() == 0,
            r.spec_stream_interval() == if fast_mode { FAST_STREAM_INTERVAL } else { REALTIME_STREAM_INTERVAL },
            r.spec_heartbeat_interval() == if fast_mode {
                FAST_HEARTBEAT_INTERVAL
            } else {
                REALTIME_HEARTBEAT_INTERVAL
            },
            r.spec_next_heartbeat() == r.spec_heartbeat_interval(),
    {
        let heartbeat_interval = if fast_mode { FAST_HEARTBEAT_INTERVAL } else { REALTIME_HEARTBEAT_INTERVAL };
        RunControl {
            max_steps,
            steps: 0,
            since_stream: 0,
            stream_interval: if fast_mode { FAST_STREAM_INTERVAL } else { REALTIME_STREAM_INTERVAL },
            next_heartbeat: heartbeat_interval,
            heartbeat_interval,
        }
    }

    /// The steps run so far.
    pub fn steps(&self) -> (r: u64)
        ensures
            r == self.spec_steps(),
    {
        self.steps
    }

    /// Whether the step limit is reached, so that no further batch may run.
    pub fn limit_reached(&self) -> (r: bool)
        ensures
            r == limit_reached(self.spec_max_steps(), self.spec_steps()),
    {
        match self.max_steps {
            Some(m) => self.steps >= m,
            None => false,
        }
    }

    /// Counts a batch that ran `ran` steps and decides what follows it: output is streamed
    /// once `stream_interval` steps have run since the last stream; a heartbeat is due when
    /// the step count reaches the next heartbeat, which then moves on by the interval; the run
    /// stops when the step limit is reached.
    pub fn on_batch(&mut self, ran: u32) -> (d: BatchDecision)
        requires
            old(self).spec_steps() + ran <= u64::MAX,
        ensures
            final(self).spec_max_steps() == old(self).spec_max_steps(),
            final(self).spec_stream_interval() == old(self).spec_stream_interval(),
            final(self).spec_heartbeat_interval() == old(self).spec_heartbeat_interval(),
            final(self).spec_steps() == old(self).spec_steps() + ran,
            d.stream == (old(self).spec_since_stream() + ran >= old(self).spec_stream_interval()),
            final(self).spec_since_stream() == if d.stream {
                0
            } else {
                (old(self).spec_since_stream() + ran) as u64
            },
            d.heartbeat == (final(self).spec_steps() >= old(self).spec_next_heartbeat()),
            final(self).spec_next_heartbeat() == if d.heartbeat {
                if old(self).spec_next_heartbeat() + old(self).spec_heartbeat_interval() > u64::MAX {
                    u64::MAX
                } else {
                    (old(self).spec_next_heartbeat() + old(self).spec_heartbeat_interval()) as u64
                }
            } else {
                old(self).spec_next_heartbeat()
            },
            d.stop == limit_reached(final(self).spec_max_steps(), final(self).spec_steps()),
    {
        self.steps = self.steps + ran as u64;
        self.since_stream = self.since_stream.saturating_add(ran as u64);
        let stream = self.since_stream >= self.stream_interval;
        if stream {
            self.since_stream = 0;
        }
        let heartbeat = self.steps >= self.next_heartbeat;
        if heartbeat {
            self.next_heartbeat = self.next_heartbeat.saturating_add(self.heartbeat_interval);
        }
        let stop = self.limit_reached();
        BatchDecision { stream, heartbeat, stop }
    }
}

} // verus!
