//! ADC and DAC peripherals, and built-in analog sources.
use crate::bus::traits::{AnalogSink, AnalogSource};
use vstd::prelude::*;

verus! {

/// `v` limited to 12 bits (0..=4095).
pub open spec fn clamp12(v: u16) -> u16 {
    if v > 0x0FFF { 0x0FFF } else { v }
}

/// ADC peripheral: up to 16 channels, each read from its analog source if one is registered,
/// otherwise from a configurable default.
pub struct AdcPeripheral {
    sources: Vec<Option<Box<dyn AnalogSource>>>,
    has_source: Vec<bool>,
    defaults: Vec<u16>,
    channel_count: u8,
    sampled: Ghost<Seq<(u8, u16)>>,
}

impl AdcPeripheral {
    pub closed spec fn count(&self) -> u8 {
        self.channel_count
    }

    pub closed spec fn spec_defaults(&self) -> Seq<u16> {
        self.defaults@
    }

    pub closed spec fn sourced(&self) -> Seq<bool> {
        self.has_source@
    }

    /// Whether the slot of `channel` holds a source object.
    pub closed spec fn source_present(&self, channel: u8) -> bool {
        channel < self.sources@.len() && self.sources@[channel as int] is Some
    }

    /// The calls made to the analog sources, in order: the channel asked for and the raw value
    /// the source gave.
    pub closed spec fn sampled(&self) -> Seq<(u8, u16)> {
        self.sampled@
    }

    pub closed spec fn wf(&self) -> bool {
        &&& self.defaults@.len() == self.channel_count
        &&& self.has_source@.len() == self.channel_count
        &&& self.channel_count <= 16
        &&& forall|i: int| 0 <= i < self.defaults@.len() ==> self.defaults@[i] <= 0x0FFF
    }

    /// An ADC with `min(channel_count, 16)` channels, no sources, defaults 0.
    pub fn new(channel_count: u8) -> (r: Self)
        ensures
            r.wf(),
            r.count() == if channel_count > 16 { 16 } else { channel_count },
            r.spec_defaults() == Seq::new(r.count() as nat, |i: int| 0u16),
            r.sourced() == Seq::new(r.count() as nat, |i: int| false),
            r.sampled().len() == 0,
    {
        let count: u8 = if channel_count > 16 { 16 } else { channel_count };
        let mut sources: Vec<Option<Box<dyn AnalogSource>>> = Vec::new();
        let mut has_source: Vec<bool> = Vec::new();
        let mut defaults: Vec<u16> = Vec::new();
        let mut i: u8 = 0;
        while i < count
            invariant
                i <= count,
                has_source@ == Seq::new(i as nat, |k: int| false),
                defaults@ == Seq::new(i as nat, |k: int| 0u16),
            decreases count - i,
        {
            sources.push(None);
            has_source.push(false);
            defaults.push(0);
            i = i + 1;
            assert(has_source@ =~= Seq::new(i as nat, |k: int| false));
            assert(defaults@ =~= Seq::new(i as nat, |k: int| 0u16));
        }
        AdcPeripheral { sources, has_source, defaults, channel_count: count, sampled: Ghost(Seq::empty()) }
    }

    /// Registers the analog source of `channel` (ignored for a channel the ADC does not have).
    pub fn set_source(&mut self, channel: u8, source: Box<dyn AnalogSource>)
        requires
            old(self).wf(),
        ensures
            final(self).wf(),
            final(self).count() == old(self).count(),
            final(self).spec_defaults() == old(self).spec_defaults(),
            final(self).sourced() == if channel < old(self).count() {
                old(self).sourced().update(channel as int, true)
            } else {
                old(self).sourced()
            },
            final(self).sampled() == old(self).sampled(),
    {
        let ch = channel as usize;
        if ch < self.has_source.len() && ch < self.sources.len() {
            self.sources.set(ch, Some(source));
            self.has_source.set(ch, true);
        } else if ch < self.has_source.len() {
            self.has_source.set(ch, true);
        }
    }

    /// Sets the value of `channel` when it has no source, limited to 12 bits.
    pub fn set_default(&mut self, channel: u8, value: u16)
        requires
            old(self).wf(),
        ensures
            final(self).wf(),
            final(self).count() == old(self).count(),
            final(self).sourced() == old(self).sourced(),
            final(self).sampled() == old(self).sampled(),
            final(self).spec_defaults() == if channel < old(self).count() {
                old(self).spec_defaults().update(channel as int, clamp12(value))
            } else {
                old(self).spec_defaults()
            },
    {
        let ch = channel as usize;
        if ch < self.defaults.len() {
            self.defaults.set(ch, if value > 0x0FFF { 0x0FFF } else { value });
        }
    }

    /// A 12-bit sample of `channel`: from its source (limited to 12 bits), otherwise its
    /// default; 0 for a channel the ADC does not have.
    pub fn sample(&mut self, channel: u8) -> (r: u16)
        requires
            old(self).wf(),
        ensures
            final(self).wf(),
            final(self).count() == old(self).count(),
            final(self).sourced() == old(self).sourced(),
            final(self).spec_defaults() == old(self).spec_defaults(),
            r <= 0x0FFF,
            channel >= old(self).count() ==> r == 0,
            channel < old(self).count() && !old(self).sourced()[channel as int] ==> r
                == old(self).spec_defaults()[channel as int],
            channel < old(self).count() && old(self).sourced()[channel as int] && !old(self).source_present(channel)
                ==> r == old(self).spec_defaults()[channel as int],
            !(channel < old(self).count() && old(self).sourced()[channel as int] && old(self).source_present(channel))
                ==> final(self).sampled() == old(self).sampled(),
            channel < old(self).count() && old(self).sourced()[channel as int] && old(self).source_present(channel)
                ==> {
                &&& final(self).sampled().len() == old(self).sampled().len() + 1
                &&& final(self).sampled().drop_last() == old(self).sampled()
                &&& final(self).sampled().last().0 == channel
                &&& r == clamp12(final(self).sampled().last().1)
            },
    {
        let ch = channel as usize;
        if ch >= self.defaults.len() {
            return 0;
        }
        if !self.has_source[ch] || ch >= self.sources.len() {
            return self.defaults[ch];
        }
        match &mut self.sources[ch] {
            Some(source) => {
                let v = source.sample(channel);
                self.sampled = Ghost(self.sampled@.push((channel, v)));
                assert(self.sampled@.drop_last() =~= old(self).sampled@);
                if v > 0x0FFF { 0x0FFF } else { v }
            },
            None => self.defaults[ch],
        }
    }

    pub fn channel_count(&self) -> (r: u8)
        ensures
            r == self.count(),
    {
        self.channel_count
    }

    /// Sources and defaults are kept; the ADC has no other state.
    pub fn reset(&mut self)
        ensures
            final(self).count() == old(self).count(),
            final(self).sourced() == old(self).sourced(),
            final(self).spec_defaults() == old(self).spec_defaults(),
            final(self).sampled() == old(self).sampled(),
    {
    }
}

/// DAC peripheral: two 12-bit channels, each optionally connected to an analog sink.
pub struct DacPeripheral {
    sinks: [Option<Box<dyn AnalogSink>>; 2],
    values: [u16; 2],
    connections: Ghost<Seq<u8>>,
    outputs: Ghost<Seq<(u8, u16)>>,
}

impl DacPeripheral {
    pub closed spec fn spec_values(&self) -> Seq<u16> {
        self.values@
    }

    /// Whether the slot of `channel` holds a sink object.
    pub closed spec fn sink_present(&self, channel: u8) -> bool {
        channel < 2 && self.sinks@[channel as int] is Some
    }

    /// The values handed to the sinks, in order: (channel, value).
    pub closed spec fn outputs(&self) -> Seq<(u8, u16)> {
        self.outputs@
    }

    /// The channels that sinks were connected to, in order.
    pub closed spec fn connections(&self) -> Seq<u8> {
        self.connections@
    }

    pub fn new() -> (r: Self)
        ensures
            r.spec_values() == seq![0u16, 0u16],
            r.connections().len() == 0,
            r.outputs().len() == 0,
    {
        let r = DacPeripheral {
            sinks: [None, None],
            values: [0, 0],
            connections: Ghost(Seq::empty()),
            outputs: Ghost(Seq::empty()),
        };
        assert(r.values@ =~= seq![0u16, 0u16]);
        r
    }

    /// Connects the sink of `channel` (0 or 1; other channels are ignored).
    pub fn set_sink(&mut self, channel: u8, sink: Box<dyn AnalogSink>)
        ensures
            final(self).spec_values() == old(self).spec_values(),
            final(self).connections() == if channel < 2 {
                old(self).connections().push(channel)
            } else {
                old(self).connections()
            },
            final(self).outputs() == old(self).outputs(),
    {
        if channel < 2 {
            self.sinks[channel as usize] = Some(sink);
            self.connections = Ghost(self.connections@.push(channel));
        }
    }

    /// Sets `channel` (0 or 1) to `value` limited to 12 bits and passes it to its sink.
    pub fn write(&mut self, channel: u8, value: u16)
        ensures
            final(self).spec_values() == if channel < 2 {
                old(self).spec_values().update(channel as int, clamp12(value))
            } else {
                old(self).spec_values()
            },
            final(self).connections() == old(self).connections(),
            final(self).outputs() == if old(self).sink_present(channel) {
                old(self).outputs().push((channel, clamp12(value)))
            } else {
                old(self).outputs()
            },
    {
        if channel >= 2 {
            return;
        }
        let value = if value > 0x0FFF { 0x0FFF } else { value };
        self.values[channel as usize] = value;
        if let Some(sink) = &mut self.sinks[channel as usize] {
            sink.output(channel, value);
            self.outputs = Ghost(self.outputs@.push((channel, value)));
        }
    }

    /// The value of `channel`, 0 for a channel the DAC does not have.
    pub fn read(&self, channel: u8) -> (r: u16)
        ensures
            r == if channel < 2 { self.spec_values()[channel as int] } else { 0 },
    {
        if channel < 2 {
            self.values[channel as usize]
        } else {
            0
        }
    }

    /// Both channels back to 0 (sinks stay connected).
    pub fn reset(&mut self)
        ensures
            final(self).spec_values() == seq![0u16, 0u16],
            final(self).outputs() == old(self).outputs(),
    {
        self.values = [0, 0];
        assert(self.values@ =~= seq![0u16, 0u16]);
    }
}

/// An analog source that always gives the same value.
pub struct FixedAnalogSource {
    value: u16,
}

impl FixedAnalogSource {
    pub closed spec fn spec_value(&self) -> u16 {
        self.value
    }

    /// A source giving `value` limited to 12 bits.
    pub fn new(value: u16) -> (r: Self)
        ensures
            r.spec_value() == clamp12(value),
    {
        FixedAnalogSource { value: if value > 0x0FFF { 0x0FFF } else { value } }
    }
}

impl AnalogSource for FixedAnalogSource {
    fn sample(&mut self, channel: u8) -> u16 {
        self.value
    }
}

/// One xorshift32 step.
pub open spec fn xorshift(s: u32) -> u32 {
    let a = s ^ (s << 13u32);
    let b = a ^ (a >> 17u32);
    b ^ (b << 5u32)
}

/// A pseudo-random analog source (xorshift32 from seed 12345): each sample is the low 16
/// bits of the next state under `mask`, plus `offset`, limited to 12 bits.
pub struct NoiseAnalogSource {
    state: u32,
    mask: u16,
    offset: u16,
}

impl NoiseAnalogSource {
    pub closed spec fn spec_state(&self) -> u32 {
        self.state
    }

    pub closed spec fn spec_mask(&self) -> u16 {
        self.mask
    }

    pub closed spec fn spec_offset(&self) -> u16 {
        self.offset
    }

    pub fn new(mask: u16, offset: u16) -> (r: Self)
        ensures
            r.spec_state() == 12345,
            r.spec_mask() == clamp12(mask),
            r.spec_offset() == clamp12(offset),
    {
        NoiseAnalogSource {
            state: 12345,
            mask: if mask > 0x0FFF { 0x0FFF } else { mask },
            offset: if offset > 0x0FFF { 0x0FFF } else { offset },
        }
    }

    fn next_random(&mut self) -> (r: u16)
        ensures
            final(self).spec_state() == xorshift(old(self).spec_state()),
            final(self).spec_mask() == old(self).spec_mask(),
            final(self).spec_offset() == old(self).spec_offset(),
            r == (xorshift(old(self).spec_state()) as u16) & old(self).spec_mask(),
    {
        self.state = self.state ^ (self.state << 13);
        self.state = self.state ^ (self.state >> 17);
        self.state = self.state ^ (self.state << 5);
        (self.state as u16) & self.mask
    }

    /// The next sample.
    pub fn next_sample(&mut self) -> (r: u16)
        ensures
            final(self).spec_state() == xorshift(old(self).spec_state()),
            r == (if ((xorshift(old(self).spec_state()) as u16) & old(self).spec_mask()) as int + old(self).spec_offset() > 0x0FFF {
                0x0FFF
            } else {
                (((xorshift(old(self).spec_state()) as u16) & old(self).spec_mask()) + old(self).spec_offset()) as u16
            }),
    {
        let v = self.next_random() as u32 + self.offset as u32;
        if v > 0x0FFF { 0x0FFF } else { v as u16 }
    }
}

impl AnalogSource for NoiseAnalogSource {
    fn sample(&mut self, channel: u8) -> u16 {
        self.next_sample()
    }
}

} // verus!
