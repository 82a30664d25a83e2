//! Bus context: owns the bus-device connections and routes the machine's MMIO write events
//! to them.
use crate::bus::access::AccessWidth;
use crate::bus::fsmc_bus::{FsmcBus, FsmcEvent};
use crate::bus::gpio::{GpioNotifier, GpioPin, deliveries, mask_deliveries, port_mask};
use crate::bus::i2c_bus::{I2cBus, I2cEvent};
use crate::bus::spi_bus::{SpiBus, SpiEvent};
use crate::bus::traits::{FrameUpdate, GpioListener};
use crate::execution::{gpio_port_letter, spec_gpio_port_letter};
use crate::machine::meta::MmioWriteEvent;
use crate::text::{ascii_upper, eq_ignore_ascii_case, eq_ignore_case, occurs_at_ignore_case, starts_with_ignore_ascii_case};
use vstd::prelude::*;

verus! {

/// What one routed MMIO write did.
#[derive(Debug, Clone, Copy, PartialEq, Eq, Structural)]
pub struct BusContextStats {
    /// A display bus (SPI or I2C data, FSMC) received the write.
    pub display_activity: bool,
    /// Number of routings made.
    pub mmio_routed: usize,
}

impl Default for BusContextStats {
    fn default() -> (r: Self)
        ensures
            r == (BusContextStats { display_activity: false, mmio_routed: 0 }),
    {
        BusContextStats { display_activity: false, mmio_routed: 0 }
    }
}

/// Number of names in `names` equal to `p` up to ASCII case.
pub open spec fn count_named(names: Seq<Seq<char>>, p: Seq<char>) -> nat
    decreases names.len(),
{
    if names.len() == 0 {
        0
    } else {
        count_named(names.drop_last(), p) + if eq_ignore_case(names.last(), p) {
            1nat
        } else {
            0nat
        }
    }
}

/// Number of (base, size) windows in `ranges` that hold `addr`.
pub open spec fn count_covering(ranges: Seq<(u64, u64)>, addr: u64) -> nat
    decreases ranges.len(),
{
    if ranges.len() == 0 {
        0
    } else {
        count_covering(ranges.drop_last(), addr) + if ranges.last().0 <= addr < ranges.last().0
            + ranges.last().1 {
            1nat
        } else {
            0nat
        }
    }
}

/// An ASCII letter.
pub open spec fn is_ascii_alpha(c: char) -> bool {
    ('A' <= c && c <= 'Z') || ('a' <= c && c <= 'z')
}

/// Whether a write to peripheral `p` is a GPIO write: the name starts with "GPIO" (any case)
/// or is a single letter.
pub open spec fn is_gpio_peripheral(p: Seq<char>) -> bool {
    occurs_at_ignore_case(p, "GPIO"@, 0) || (p.len() == 1 && is_ascii_alpha(p[0]))
}

/// Whether `e` writes register `reg` of a peripheral whose name starts with `kind` (names
/// compared up to ASCII case).
pub open spec fn writes_reg(e: MmioWriteEvent, kind: Seq<char>, reg: Seq<char>) -> bool {
    occurs_at_ignore_case(e.peripheral@, kind, 0) && eq_ignore_case(e.register@, reg)
}

/// The routing counts of `e`: SPI data, I2C control, I2C data, GPIO and FSMC.
pub open spec fn routing_counts(
    spi_names: Seq<Seq<char>>,
    i2c_names: Seq<Seq<char>>,
    ranges: Seq<(u64, u64)>,
    e: MmioWriteEvent,
) -> (nat, nat, nat, nat, nat) {
    (
        if writes_reg(e, "SPI"@, "DR"@) { count_named(spi_names, e.peripheral@) } else { 0 },
        if writes_reg(e, "I2C"@, "CR1"@) { count_named(i2c_names, e.peripheral@) } else { 0 },
        if writes_reg(e, "I2C"@, "DR"@) { count_named(i2c_names, e.peripheral@) } else { 0 },
        if is_gpio_peripheral(e.peripheral@) { 1 } else { 0 },
        count_covering(ranges, e.addr),
    )
}

/// The statistics of routing `e`.
pub open spec fn spec_dispatch_stats(
    spi_names: Seq<Seq<char>>,
    i2c_names: Seq<Seq<char>>,
    ranges: Seq<(u64, u64)>,
    e: MmioWriteEvent,
) -> (bool, int) {
    let (spi, cr1, dr, gpio, fsmc) = routing_counts(spi_names, i2c_names, ranges, e);
    (spi > 0 || dr > 0 || fsmc > 0, (spi + cr1 + dr + gpio + fsmc) as int)
}

/// The access width of an MMIO write of `width` bytes (1, 2, otherwise a word).
pub open spec fn width_of(width: u8) -> AccessWidth {
    if width == 1 {
        AccessWidth::Byte
    } else if width == 2 {
        AccessWidth::HalfWord
    } else {
        AccessWidth::Word
    }
}

/// An SPI data write of `byte` to `periph`: each bus whose binding is named like `periph`
/// takes one transfer of `byte`; the others are unchanged.
pub open spec fn spi_routed(names: Seq<Seq<char>>, periph: Seq<char>, byte: u8, before: Seq<SpiBus>, after: Seq<SpiBus>) -> bool {
    &&& after.len() == before.len()
    &&& forall|i: int| #![trigger after[i]] 0 <= i < before.len() ==> if eq_ignore_case(names[i], periph) {
        SpiBus::dr_write_step(before[i], byte, after[i])
    } else {
        after[i] == before[i]
    }
}

/// An I2C write of `value` to `periph` (CR1 when `control`, else DR with its low byte): each
/// bus whose binding is named like `periph` takes it; the others are unchanged.
pub open spec fn i2c_routed(names: Seq<Seq<char>>, periph: Seq<char>, value: u32, control: bool, before: Seq<I2cBus>, after: Seq<I2cBus>) -> bool {
    &&& after.len() == before.len()
    &&& forall|i: int| #![trigger after[i]] 0 <= i < before.len() ==> if eq_ignore_case(names[i], periph) {
        if control {
            I2cBus::cr1_write_step(before[i], value, after[i])
        } else {
            I2cBus::dr_write_step(before[i], (value & 0xFF) as u8, after[i])
        }
    } else {
        after[i] == before[i]
    }
}

/// A write `e` seen by the FSMC buses: each bus whose window holds the address takes the write
/// at its offset in the window; the others are unchanged.
pub open spec fn fsmc_routed(ranges: Seq<(u64, u64)>, e: MmioWriteEvent, before: Seq<FsmcBus>, after: Seq<FsmcBus>) -> bool {
    &&& after.len() == before.len()
    &&& forall|i: int| #![trigger after[i]] 0 <= i < before.len() ==> if ranges[i].0 <= e.addr && e.addr - ranges[i].0 < ranges[i].1 {
        FsmcBus::write_step(before[i], (e.addr - ranges[i].0) as u32, e.value, width_of(e.width), after[i])
    } else {
        after[i] == before[i]
    }
}

/// What a GPIO write `e` of `port` did to the GPIO listeners and the SPI devices, by register:
/// ODR reports the pins set in the value, BSRR the pins it sets and resets, other registers
/// nothing.
pub open spec fn gpio_dispatched(before: BusContext, port: char, e: MmioWriteEvent, after: BusContext) -> bool {
    &&& eq_ignore_case(e.register@, "ODR"@) ==> {
        let v = (e.value & 0xFFFF) as u16;
        &&& after.gpio_delivered() == before.gpio_delivered() + mask_deliveries(
            before.gpio_pins(),
            before.gpio_listened(),
            ascii_upper(port),
            (0u16 ^ v) & port_mask(before.gpio_pins(), ascii_upper(port), before.gpio_pins().len() as int),
            v,
            16,
        )
        &&& after.spi_events() == spi_events_after(
            before.spi_events(),
            |i: int| odr_events(before.spi_cs_pins()[i], before.spi_dc_pins()[i], port, v),
        )
    }
    &&& !eq_ignore_case(e.register@, "ODR"@) && eq_ignore_case(e.register@, "BSRR"@) ==> {
        let set = (e.value & 0xFFFF) as u16;
        let rst = ((e.value >> 16u32) & 0xFFFF) as u16;
        &&& after.gpio_delivered() == before.gpio_delivered() + bsrr_deliveries(
            before.gpio_pins(),
            before.gpio_listened(),
            port,
            set,
            rst,
            16,
        )
        &&& after.spi_events() == spi_events_after(
            before.spi_events(),
            |i: int| bsrr_events(before.spi_cs_pins()[i], before.spi_dc_pins()[i], port, set, rst),
        )
    }
    &&& !eq_ignore_case(e.register@, "ODR"@) && !eq_ignore_case(e.register@, "BSRR"@) ==> {
        &&& after.gpio_delivered() == before.gpio_delivered()
        &&& after.spi_events() == before.spi_events()
    }
}

/// The port a GPIO write to `p` names: the letter after "GPIO", else `A`.
pub open spec fn gpio_write_port(p: Seq<char>) -> char {
    match spec_gpio_port_letter(p) {
        Some(c) => c,
        None => 'A',
    }
}

/// A peripheral named like an SPI peripheral is not a GPIO port.
proof fn lemma_spi_not_gpio(p: Seq<char>)
    requires
        occurs_at_ignore_case(p, "SPI"@, 0),
    ensures
        !is_gpio_peripheral(p),
{
    reveal_strlit("SPI");
    reveal_strlit("GPIO");
    assert(ascii_upper(p.subrange(0, 3)[0]) == ascii_upper("SPI"@[0]));
    if occurs_at_ignore_case(p, "GPIO"@, 0) {
        assert(ascii_upper(p.subrange(0, 4)[0]) == ascii_upper("GPIO"@[0]));
    }
}

/// A peripheral named like an I2C peripheral is neither an SPI peripheral nor a GPIO port.
proof fn lemma_i2c_not_spi_gpio(p: Seq<char>)
    requires
        occurs_at_ignore_case(p, "I2C"@, 0),
    ensures
        !is_gpio_peripheral(p),
        !occurs_at_ignore_case(p, "SPI"@, 0),
{
    reveal_strlit("SPI");
    reveal_strlit("I2C");
    reveal_strlit("GPIO");
    assert(ascii_upper(p.subrange(0, 3)[0]) == ascii_upper("I2C"@[0]));
    if occurs_at_ignore_case(p, "GPIO"@, 0) {
        assert(ascii_upper(p.subrange(0, 4)[0]) == ascii_upper("GPIO"@[0]));
    }
}

/// Unified bus context: owns the SPI, I2C and FSMC buses and the GPIO listeners, and routes
/// MMIO write events to them. Binding `i` of a kind is `(names[i], buses[i], ...)`.
pub struct BusContext {
    spi_names: Vec<String>,
    spi_buses: Vec<SpiBus>,
    spi_cs: Vec<Option<GpioPin>>,
    spi_dc: Vec<Option<GpioPin>>,
    i2c_names: Vec<String>,
    i2c_buses: Vec<I2cBus>,
    fsmc_ranges: Vec<(u64, u64)>,
    fsmc_buses: Vec<FsmcBus>,
    gpio_notifier: GpioNotifier,
}

/// A control pin that can be tested in a 16-bit port value.
pub open spec fn pin_in_port(p: Option<GpioPin>) -> bool {
    p matches Some(g) ==> g.pin < 16
}


/// Whether bit `p` of the port value `v` is set.
pub open spec fn port_bit(v: u16, p: u8) -> bool {
    (v >> p) & 1 != 0
}

/// What an ODR value `v` of `port` passes to an SPI binding with chip-select `cs` and
/// data/command `dc`: the chip select (active low) and the data/command level, for the pins on
/// that port.
pub open spec fn odr_events(cs: Option<GpioPin>, dc: Option<GpioPin>, port: char, v: u16) -> Seq<SpiEvent> {
    (match cs {
        Some(c) => if c.port == port { seq![SpiEvent::ChipSelect(!port_bit(v, c.pin))] } else { Seq::empty() },
        None => Seq::empty(),
    }) + (match dc {
        Some(d) => if d.port == port { seq![SpiEvent::PinChanged(port, d.pin, port_bit(v, d.pin))] } else { Seq::empty() },
        None => Seq::empty(),
    })
}

/// What a BSRR write of `port` (set mask `set`, reset mask `rst`) passes to an SPI binding: a
/// set chip-select pin deselects and a reset one selects; a set data/command pin reports high
/// and a reset one low.
pub open spec fn bsrr_events(cs: Option<GpioPin>, dc: Option<GpioPin>, port: char, set: u16, rst: u16) -> Seq<SpiEvent> {
    (match cs {
        Some(c) => if c.port == port {
            (if port_bit(set, c.pin) { seq![SpiEvent::ChipSelect(false)] } else { Seq::empty() }) + (if port_bit(rst, c.pin) {
                seq![SpiEvent::ChipSelect(true)]
            } else {
                Seq::empty()
            })
        } else {
            Seq::empty()
        },
        None => Seq::empty(),
    }) + (match dc {
        Some(d) => if d.port == port {
            (if port_bit(set, d.pin) { seq![SpiEvent::PinChanged(port, d.pin, true)] } else { Seq::empty() }) + (if port_bit(
                rst,
                d.pin,
            ) {
                seq![SpiEvent::PinChanged(port, d.pin, false)]
            } else {
                Seq::empty()
            })
        } else {
            Seq::empty()
        },
        None => Seq::empty(),
    })
}

/// The SPI bindings' events after `extra[i]` was passed to binding `i`.
pub open spec fn spi_events_after(before: Seq<Seq<SpiEvent>>, extra: spec_fn(int) -> Seq<SpiEvent>) -> Seq<Seq<SpiEvent>> {
    Seq::new(before.len(), |i: int| before[i] + extra(i))
}

/// The GPIO deliveries of a BSRR write of `port` for the pins `p < k`: for each, a set pin
/// reported high, then a reset pin reported low.
pub open spec fn bsrr_deliveries(pins: Seq<GpioPin>, n: int, port: char, set: u16, rst: u16, k: int) -> Seq<(int, char, u8, bool)>
    decreases k,
{
    if k <= 0 {
        Seq::empty()
    } else {
        let p = (k - 1) as u8;
        bsrr_deliveries(pins, n, port, set, rst, k - 1) + (if port_bit(set, p) {
            deliveries(pins, n, ascii_upper(port), p, true)
        } else {
            Seq::empty()
        }) + (if port_bit(rst, p) {
            deliveries(pins, n, ascii_upper(port), p, false)
        } else {
            Seq::empty()
        })
    }
}

/// The frame a device gave when last polled, by its last event.
pub open spec fn spi_polled(e: Seq<SpiEvent>) -> Option<FrameUpdate> {
    if e.len() > 0 {
        match e.last() {
            SpiEvent::FramePolled(f) => f,
            _ => None,
        }
    } else {
        None
    }
}

pub open spec fn i2c_polled(e: Seq<I2cEvent>) -> Option<FrameUpdate> {
    if e.len() > 0 {
        match e.last() {
            I2cEvent::FramePolled(f) => f,
            _ => None,
        }
    } else {
        None
    }
}

pub open spec fn fsmc_polled(e: Seq<FsmcEvent>) -> Option<FrameUpdate> {
    if e.len() > 0 {
        match e.last() {
            FsmcEvent::FramePolled(f) => f,
            _ => None,
        }
    } else {
        None
    }
}

/// The frames among `s`, in order.
pub open spec fn some_frames(s: Seq<Option<FrameUpdate>>) -> Seq<FrameUpdate>
    decreases s.len(),
{
    if s.len() == 0 {
        Seq::empty()
    } else {
        match s.last() {
            Some(f) => some_frames(s.drop_last()).push(f),
            None => some_frames(s.drop_last()),
        }
    }
}

/// `after` is `before` with one more event, a frame poll, for each of the first `i` entries.
pub open spec fn polled_upto<E>(before: Seq<Seq<E>>, after: Seq<Seq<E>>, i: int, is_poll: spec_fn(E) -> bool) -> bool {
    &&& after.len() == before.len()
    &&& forall|t: int|
        0 <= t < i ==> (#[trigger] after[t]).len() == before[t].len() + 1 && after[t].drop_last() == before[t]
            && is_poll(after[t].last())
    &&& forall|t: int| i <= t < after.len() ==> #[trigger] after[t] == before[t]
}

proof fn lemma_polled_step<E>(before: Seq<Seq<E>>, cur: Seq<Seq<E>>, i: int, x: E, is_poll: spec_fn(E) -> bool)
    requires
        polled_upto(before, cur, i, is_poll),
        0 <= i < cur.len(),
        is_poll(x),
    ensures
        polled_upto(before, cur.update(i, cur[i].push(x)), i + 1, is_poll),
{
    let after = cur.update(i, cur[i].push(x));
    assert forall|t: int| 0 <= t < i + 1 implies (#[trigger] after[t]).len() == before[t].len() + 1
        && after[t].drop_last() == before[t] && is_poll(after[t].last()) by {
        if t == i {
            assert(cur[i] == before[i]);
            assert(after[t].drop_last() =~= before[t]);
        } else {
            assert(after[t] == cur[t]);
        }
    }
    assert forall|t: int| i + 1 <= t < after.len() implies #[trigger] after[t] == before[t] by {
        assert(after[t] == cur[t]);
    }
}

proof fn lemma_some_frames_len(s: Seq<Option<FrameUpdate>>)
    ensures
        some_frames(s).len() <= s.len(),
    decreases s.len(),
{
    if s.len() > 0 {
        lemma_some_frames_len(s.drop_last());
    }
}

impl BusContext {
    /// What each SPI binding's bus has passed to its device.
    pub open spec fn spi_events(&self) -> Seq<Seq<SpiEvent>> {
        self.spi_bus_states().map_values(|b: SpiBus| b.events())
    }

    /// What each I2C binding's bus has passed to its device.
    pub open spec fn i2c_events(&self) -> Seq<Seq<I2cEvent>> {
        self.i2c_bus_states().map_values(|b: I2cBus| b.events())
    }

    /// What each FSMC binding's bus has passed to its device.
    pub open spec fn fsmc_events(&self) -> Seq<Seq<FsmcEvent>> {
        self.fsmc_bus_states().map_values(|b: FsmcBus| b.events())
    }

    /// The SPI buses, binding by binding.
    pub closed spec fn spi_bus_states(&self) -> Seq<SpiBus> {
        self.spi_buses@
    }

    /// The I2C buses, binding by binding.
    pub closed spec fn i2c_bus_states(&self) -> Seq<I2cBus> {
        self.i2c_buses@
    }

    /// The FSMC buses, binding by binding.
    pub closed spec fn fsmc_bus_states(&self) -> Seq<FsmcBus> {
        self.fsmc_buses@
    }

    /// The pin changes passed to the GPIO listeners.
    pub closed spec fn gpio_delivered(&self) -> Seq<(int, char, u8, bool)> {
        self.gpio_notifier.delivered()
    }

    /// How many GPIO listeners are registered with their pins.
    pub closed spec fn gpio_listened(&self) -> int {
        self.gpio_notifier.listened()
    }

    /// Peripheral names of the SPI bindings, as registered.
    pub closed spec fn spi_names(&self) -> Seq<Seq<char>> {
        self.spi_names@.map_values(|s: String| s@)
    }

    /// Chip-select pins of the SPI bindings.
    pub closed spec fn spi_cs_pins(&self) -> Seq<Option<GpioPin>> {
        self.spi_cs@
    }

    /// Data/command pins of the SPI bindings.
    pub closed spec fn spi_dc_pins(&self) -> Seq<Option<GpioPin>> {
        self.spi_dc@
    }

    /// Peripheral names of the I2C bindings, as registered.
    pub closed spec fn i2c_names(&self) -> Seq<Seq<char>> {
        self.i2c_names@.map_values(|s: String| s@)
    }

    /// (base address, size) windows of the FSMC bindings.
    pub closed spec fn fsmc_ranges(&self) -> Seq<(u64, u64)> {
        self.fsmc_ranges@
    }

    /// Pins watched by GPIO-only listeners.
    pub closed spec fn gpio_pins(&self) -> Seq<GpioPin> {
        self.gpio_notifier.pins()
    }

    /// The bindings of each kind are complete.
    pub closed spec fn wf(&self) -> bool {
        &&& self.spi_buses@.len() == self.spi_names@.len()
        &&& self.spi_cs@.len() == self.spi_names@.len()
        &&& self.spi_dc@.len() == self.spi_names@.len()
        &&& self.i2c_buses@.len() == self.i2c_names@.len()
        &&& self.fsmc_buses@.len() == self.fsmc_ranges@.len()
    }

    /// Every SPI control pin is one of pins 0..15.
    pub open spec fn pins_in_port(&self) -> bool {
        &&& forall|i: int| 0 <= i < self.spi_cs_pins().len() ==> pin_in_port(#[trigger] self.spi_cs_pins()[i])
        &&& forall|i: int| 0 <= i < self.spi_dc_pins().len() ==> pin_in_port(#[trigger] self.spi_dc_pins()[i])
    }

    /// Total number of bus bindings.
    pub open spec fn binding_count(&self) -> int {
        (self.spi_names().len() + self.i2c_names().len() + self.fsmc_ranges().len()) as int
    }

    pub fn new() -> (r: Self)
        ensures
            r.wf(),
            r.spi_names().len() == 0,
            r.spi_cs_pins().len() == 0,
            r.spi_dc_pins().len() == 0,
            r.i2c_names().len() == 0,
            r.fsmc_ranges().len() == 0,
            r.gpio_pins().len() == 0,
            r.gpio_listened() == 0,
            r.gpio_delivered().len() == 0,
    {
        BusContext {
            spi_names: Vec::new(),
            spi_buses: Vec::new(),
            spi_cs: Vec::new(),
            spi_dc: Vec::new(),
            i2c_names: Vec::new(),
            i2c_buses: Vec::new(),
            fsmc_ranges: Vec::new(),
            fsmc_buses: Vec::new(),
            gpio_notifier: GpioNotifier::new(),
        }
    }

    /// Registers an SPI bus for `peripheral`, with optional GPIO chip-select and
    /// data/command pins.
    pub fn register_spi(&mut self, peripheral: String, bus: SpiBus, cs_pin: Option<GpioPin>, dc_pin: Option<GpioPin>)
        requires
            old(self).wf(),
        ensures
            final(self).wf(),
            final(self).spi_names() == old(self).spi_names().push(peripheral@),
            final(self).spi_cs_pins() == old(self).spi_cs_pins().push(cs_pin),
            final(self).spi_dc_pins() == old(self).spi_dc_pins().push(dc_pin),
            final(self).i2c_names() == old(self).i2c_names(),
            final(self).fsmc_ranges() == old(self).fsmc_ranges(),
            final(self).gpio_pins() == old(self).gpio_pins(),
    {
        let ghost name = peripheral@;
        self.spi_names.push(peripheral);
        self.spi_buses.push(bus);
        self.spi_cs.push(cs_pin);
        self.spi_dc.push(dc_pin);
        assert(self.spi_names@.map_values(|s: String| s@) =~= old(self).spi_names().push(name));
    }

    /// Registers an I2C bus for `peripheral`.
    pub fn register_i2c(&mut self, peripheral: String, bus: I2cBus)
        requires
            old(self).wf(),
        ensures
            final(self).wf(),
            final(self).i2c_names() == old(self).i2c_names().push(peripheral@),
            final(self).spi_names() == old(self).spi_names(),
            final(self).spi_cs_pins() == old(self).spi_cs_pins(),
            final(self).spi_dc_pins() == old(self).spi_dc_pins(),
            final(self).fsmc_ranges() == old(self).fsmc_ranges(),
            final(self).gpio_pins() == old(self).gpio_pins(),
    {
        let ghost name = peripheral@;
        self.i2c_names.push(peripheral);
        self.i2c_buses.push(bus);
        assert(self.i2c_names@.map_values(|s: String| s@) =~= old(self).i2c_names().push(name));
    }

    /// Registers a GPIO-only listener (such as an LED) for `pin`.
    pub fn register_gpio(&mut self, pin: GpioPin, listener: Box<dyn GpioListener>)
        requires
            old(self).wf(),
        ensures
            final(self).wf(),
            final(self).gpio_pins() == old(self).gpio_pins().push(pin),
            final(self).spi_names() == old(self).spi_names(),
            final(self).spi_cs_pins() == old(self).spi_cs_pins(),
            final(self).spi_dc_pins() == old(self).spi_dc_pins(),
            final(self).i2c_names() == old(self).i2c_names(),
            final(self).fsmc_ranges() == old(self).fsmc_ranges(),
    {
        self.gpio_notifier.register(pin, listener);
    }

    /// Registers an FSMC bus for the window of `size` bytes at `base_addr`.
    pub fn register_fsmc(&mut self, base_addr: u64, size: u64, bus: FsmcBus)
        requires
            old(self).wf(),
        ensures
            final(self).wf(),
            final(self).fsmc_ranges() == old(self).fsmc_ranges().push((base_addr, size)),
            final(self).spi_names() == old(self).spi_names(),
            final(self).spi_cs_pins() == old(self).spi_cs_pins(),
            final(self).spi_dc_pins() == old(self).spi_dc_pins(),
            final(self).i2c_names() == old(self).i2c_names(),
            final(self).gpio_pins() == old(self).gpio_pins(),
    {
        self.fsmc_ranges.push((base_addr, size));
        self.fsmc_buses.push(bus);
    }

    /// Routes one MMIO write: SPI DR writes to the SPI buses of that peripheral, I2C CR1 and
    /// DR writes to its I2C buses, GPIO ODR/BSRR writes to the GPIO listeners and the SPI
    /// control pins, and writes inside an FSMC window to that FSMC bus.
    pub fn dispatch_mmio(&mut self, event: &MmioWriteEvent) -> (r: BusContextStats)
        requires
            old(self).wf(),
            old(self).pins_in_port(),
            old(self).binding_count() < usize::MAX,
        ensures
            final(self).wf(),
            final(self).spi_names() == old(self).spi_names(),
            final(self).spi_cs_pins() == old(self).spi_cs_pins(),
            final(self).spi_dc_pins() == old(self).spi_dc_pins(),
            final(self).i2c_names() == old(self).i2c_names(),
            final(self).fsmc_ranges() == old(self).fsmc_ranges(),
            final(self).gpio_pins() == old(self).gpio_pins(),
            (r.display_activity, r.mmio_routed as int) == spec_dispatch_stats(
                old(self).spi_names(),
                old(self).i2c_names(),
                old(self).fsmc_ranges(),
                *event,
            ),
            writes_reg(*event, "SPI"@, "DR"@) ==> spi_routed(
                old(self).spi_names(),
                event.peripheral@,
                (event.value & 0xFF) as u8,
                old(self).spi_bus_states(),
                final(self).spi_bus_states(),
            ),
            !writes_reg(*event, "SPI"@, "DR"@) && !is_gpio_peripheral(event.peripheral@)
                ==> final(self).spi_bus_states() == old(self).spi_bus_states(),
            writes_reg(*event, "I2C"@, "CR1"@) ==> i2c_routed(
                old(self).i2c_names(),
                event.peripheral@,
                event.value,
                true,
                old(self).i2c_bus_states(),
                final(self).i2c_bus_states(),
            ),
            writes_reg(*event, "I2C"@, "DR"@) ==> i2c_routed(
                old(self).i2c_names(),
                event.peripheral@,
                event.value,
                false,
                old(self).i2c_bus_states(),
                final(self).i2c_bus_states(),
            ),
            !writes_reg(*event, "I2C"@, "CR1"@) && !writes_reg(*event, "I2C"@, "DR"@)
                ==> final(self).i2c_bus_states() == old(self).i2c_bus_states(),
            is_gpio_peripheral(event.peripheral@) ==> gpio_dispatched(
                *old(self),
                gpio_write_port(event.peripheral@),
                *event,
                *final(self),
            ),
            !is_gpio_peripheral(event.peripheral@) ==> final(self).gpio_delivered() == old(self).gpio_delivered(),
            final(self).gpio_listened() == old(self).gpio_listened(),
            fsmc_routed(old(self).fsmc_ranges(), *event, old(self).fsmc_bus_states(), final(self).fsmc_bus_states()),
    {
        let ghost counts = routing_counts(self.spi_names(), self.i2c_names(), self.fsmc_ranges(), *event);
        let mut stats = BusContextStats::default();
        let periph = event.peripheral.as_str();
        let reg = event.register.as_str();
        proof {
            reveal_strlit("DR");
            reveal_strlit("CR1");
            if occurs_at_ignore_case(event.peripheral@, "SPI"@, 0) {
                lemma_spi_not_gpio(event.peripheral@);
            }
            if occurs_at_ignore_case(event.peripheral@, "I2C"@, 0) {
                lemma_i2c_not_spi_gpio(event.peripheral@);
            }
        }
        // SPI data writes.
        let mut spi_n: usize = 0;
        if starts_with_ignore_ascii_case(periph, "SPI") && eq_ignore_ascii_case(reg, "DR") {
            let byte = (event.value & 0xFF) as u8;
            spi_n = self.route_spi_dr(periph, byte);
        }
        assert(spi_n == counts.0);
        // I2C control writes.
        let mut cr1_n: usize = 0;
        if starts_with_ignore_ascii_case(periph, "I2C") && eq_ignore_ascii_case(reg, "CR1") {
            cr1_n = self.route_i2c(periph, event.value, true);
        }
        assert(cr1_n == counts.1);
        // I2C data writes.
        let mut dr_n: usize = 0;
        if starts_with_ignore_ascii_case(periph, "I2C") && eq_ignore_ascii_case(reg, "DR") {
            dr_n = self.route_i2c(periph, event.value, false);
        }
        assert(dr_n == counts.2);
        assert(cr1_n == 0 || dr_n == 0);
        // GPIO writes.
        let mut gpio_n: usize = 0;
        let single_letter = if periph.unicode_len() == 1 {
            let c = periph.get_char(0);
            ('A' <= c && c <= 'Z') || ('a' <= c && c <= 'z')
        } else {
            false
        };
        if starts_with_ignore_ascii_case(periph, "GPIO") || single_letter {
            let port = match gpio_port_letter(periph) {
                Some(p) => p,
                None => 'A',
            };
            let ghost before_gpio = *self;
            assert(port == gpio_write_port(event.peripheral@));
            self.dispatch_gpio(port, event);
            assert(before_gpio.spi_events() == old(self).spi_events());
            assert(before_gpio.gpio_delivered() == old(self).gpio_delivered());
            gpio_n = 1;
        }
        assert(gpio_n == counts.3);
        // FSMC memory-mapped writes.
        let ghost before_fsmc = *self;
        let fsmc_n = self.route_fsmc(event);
        assert(self.spi_events() == before_fsmc.spi_events());
        assert(fsmc_n == counts.4);
        stats.display_activity = spi_n > 0 || dr_n > 0 || fsmc_n > 0;
        stats.mmio_routed = spi_n + cr1_n + dr_n + gpio_n + fsmc_n;
        stats
    }

    /// Sends `byte` to every SPI bus registered for `periph`; the number of them.
    fn route_spi_dr(&mut self, periph: &str, byte: u8) -> (n: usize)
        requires
            old(self).wf(),
        ensures
            final(self).wf(),
            n == count_named(old(self).spi_names(), periph@),
            n <= old(self).spi_names().len(),
            spi_routed(old(self).spi_names(), periph@, byte, old(self).spi_bus_states(), final(self).spi_bus_states()),
            final(self).i2c_bus_states() == old(self).i2c_bus_states(),
            final(self).fsmc_bus_states() == old(self).fsmc_bus_states(),
            final(self).gpio_delivered() == old(self).gpio_delivered(),
            final(self).gpio_listened() == old(self).gpio_listened(),
            final(self).spi_names() == old(self).spi_names(),
            final(self).spi_cs_pins() == old(self).spi_cs_pins(),
            final(self).spi_dc_pins() == old(self).spi_dc_pins(),
            final(self).i2c_names() == old(self).i2c_names(),
            final(self).fsmc_ranges() == old(self).fsmc_ranges(),
            final(self).gpio_pins() == old(self).gpio_pins(),
    {
        let ghost names = self.spi_names();
        let mut n: usize = 0;
        let mut i: usize = 0;
        while i < self.spi_names.len()
            invariant
                self.wf(),
                i <= self.spi_names@.len(),
                names == self.spi_names(),
                names.len() == self.spi_names@.len(),
                n == count_named(names.subrange(0, i as int), periph@),
                n <= i,
                self.spi_cs@ == old(self).spi_cs_pins(),
                self.spi_dc@ == old(self).spi_dc_pins(),
                self.i2c_names() == old(self).i2c_names(),
                self.fsmc_ranges() == old(self).fsmc_ranges(),
                self.gpio_pins() == old(self).gpio_pins(),
                names == old(self).spi_names(),
                self.spi_buses@.len() == old(self).spi_buses@.len(),
                forall|j: int| #![trigger self.spi_buses@[j]] 0 <= j < i ==> if eq_ignore_case(names[j], periph@) {
                    SpiBus::dr_write_step(old(self).spi_buses@[j], byte, self.spi_buses@[j])
                } else {
                    self.spi_buses@[j] == old(self).spi_buses@[j]
                },
                forall|j: int| #![trigger self.spi_buses@[j]] i <= j < self.spi_buses@.len() ==> self.spi_buses@[j] == old(self).spi_buses@[j],
                self.i2c_buses@ == old(self).i2c_buses@,
                self.fsmc_buses@ == old(self).fsmc_buses@,
                self.gpio_delivered() == old(self).gpio_delivered(),
                self.gpio_listened() == old(self).gpio_listened(),
            decreases self.spi_names@.len() - i,
        {
            assert(names.subrange(0, i + 1).drop_last() =~= names.subrange(0, i as int));
            assert(names[i as int] == self.spi_names@[i as int]@);
            if eq_ignore_ascii_case(self.spi_names[i].as_str(), periph) {
                self.spi_buses[i].on_dr_write(byte);
                n = n + 1;
            }
            i = i + 1;
        }
        assert(names.subrange(0, i as int) =~= names);
        n
    }

    /// Sends a CR1 write (`control`) or the low byte of a DR write of `value` to every I2C
    /// bus registered for `periph`; the number of them.
    fn route_i2c(&mut self, periph: &str, value: u32, control: bool) -> (n: usize)
        requires
            old(self).wf(),
        ensures
            final(self).wf(),
            n == count_named(old(self).i2c_names(), periph@),
            n <= old(self).i2c_names().len(),
            i2c_routed(old(self).i2c_names(), periph@, value, control, old(self).i2c_bus_states(), final(self).i2c_bus_states()),
            final(self).spi_bus_states() == old(self).spi_bus_states(),
            final(self).fsmc_bus_states() == old(self).fsmc_bus_states(),
            final(self).gpio_delivered() == old(self).gpio_delivered(),
            final(self).gpio_listened() == old(self).gpio_listened(),
            final(self).spi_names() == old(self).spi_names(),
            final(self).spi_cs_pins() == old(self).spi_cs_pins(),
            final(self).spi_dc_pins() == old(self).spi_dc_pins(),
            final(self).i2c_names() == old(self).i2c_names(),
            final(self).fsmc_ranges() == old(self).fsmc_ranges(),
            final(self).gpio_pins() == old(self).gpio_pins(),
    {
        let ghost names = self.i2c_names();
        let mut n: usize = 0;
        let mut i: usize = 0;
        while i < self.i2c_names.len()
            invariant
                self.wf(),
                i <= self.i2c_names@.len(),
                names == self.i2c_names(),
                names.len() == self.i2c_names@.len(),
                n == count_named(names.subrange(0, i as int), periph@),
                n <= i,
                self.spi_names() == old(self).spi_names(),
                self.spi_cs@ == old(self).spi_cs_pins(),
                self.spi_dc@ == old(self).spi_dc_pins(),
                self.fsmc_ranges() == old(self).fsmc_ranges(),
                self.gpio_pins() == old(self).gpio_pins(),
                names == old(self).i2c_names(),
                self.i2c_buses@.len() == old(self).i2c_buses@.len(),
                forall|j: int| #![trigger self.i2c_buses@[j]] 0 <= j < i ==> if eq_ignore_case(names[j], periph@) {
                    if control {
                        I2cBus::cr1_write_step(old(self).i2c_buses@[j], value, self.i2c_buses@[j])
                    } else {
                        I2cBus::dr_write_step(old(self).i2c_buses@[j], (value & 0xFF) as u8, self.i2c_buses@[j])
                    }
                } else {
                    self.i2c_buses@[j] == old(self).i2c_buses@[j]
                },
                forall|j: int| #![trigger self.i2c_buses@[j]] i <= j < self.i2c_buses@.len() ==> self.i2c_buses@[j] == old(self).i2c_buses@[j],
                self.spi_buses@ == old(self).spi_buses@,
                self.fsmc_buses@ == old(self).fsmc_buses@,
                self.gpio_delivered() == old(self).gpio_delivered(),
                self.gpio_listened() == old(self).gpio_listened(),
            decreases self.i2c_names@.len() - i,
        {
            assert(names.subrange(0, i + 1).drop_last() =~= names.subrange(0, i as int));
            assert(names[i as int] == self.i2c_names@[i as int]@);
            if eq_ignore_ascii_case(self.i2c_names[i].as_str(), periph) {
                if control {
                    self.i2c_buses[i].on_cr1_write(value);
                } else {
                    self.i2c_buses[i].on_dr_write((value & 0xFF) as u8);
                }
                n = n + 1;
            }
            i = i + 1;
        }
        assert(names.subrange(0, i as int) =~= names);
        n
    }

    /// Sends a write inside an FSMC window to that bus, at its offset in the window; the
    /// number of windows that hold the address.
    fn route_fsmc(&mut self, event: &MmioWriteEvent) -> (n: usize)
        requires
            old(self).wf(),
        ensures
            final(self).wf(),
            n == count_covering(old(self).fsmc_ranges(), event.addr),
            n <= old(self).fsmc_ranges().len(),
            fsmc_routed(old(self).fsmc_ranges(), *event, old(self).fsmc_bus_states(), final(self).fsmc_bus_states()),
            final(self).spi_bus_states() == old(self).spi_bus_states(),
            final(self).i2c_bus_states() == old(self).i2c_bus_states(),
            final(self).gpio_delivered() == old(self).gpio_delivered(),
            final(self).gpio_listened() == old(self).gpio_listened(),
            final(self).spi_names() == old(self).spi_names(),
            final(self).spi_cs_pins() == old(self).spi_cs_pins(),
            final(self).spi_dc_pins() == old(self).spi_dc_pins(),
            final(self).i2c_names() == old(self).i2c_names(),
            final(self).fsmc_ranges() == old(self).fsmc_ranges(),
            final(self).gpio_pins() == old(self).gpio_pins(),
    {
        let addr = event.addr;
        let width = if event.width == 1 {
            AccessWidth::Byte
        } else if event.width == 2 {
            AccessWidth::HalfWord
        } else {
            AccessWidth::Word
        };
        let ghost ranges = self.fsmc_ranges@;
        let mut n: usize = 0;
        let mut i: usize = 0;
        while i < self.fsmc_ranges.len()
            invariant
                self.wf(),
                i <= ranges.len(),
                ranges == self.fsmc_ranges@,
                ranges == old(self).fsmc_ranges(),
                n == count_covering(ranges.subrange(0, i as int), addr),
                n <= i,
                addr == event.addr,
                self.spi_names() == old(self).spi_names(),
                self.spi_cs@ == old(self).spi_cs_pins(),
                self.spi_dc@ == old(self).spi_dc_pins(),
                self.i2c_names() == old(self).i2c_names(),
                self.gpio_pins() == old(self).gpio_pins(),
                width == width_of(event.width),
                self.fsmc_buses@.len() == old(self).fsmc_buses@.len(),
                forall|j: int| #![trigger self.fsmc_buses@[j]] 0 <= j < i ==> if ranges[j].0 <= addr && addr - ranges[j].0 < ranges[j].1 {
                    FsmcBus::write_step(old(self).fsmc_buses@[j], (addr - ranges[j].0) as u32, event.value, width, self.fsmc_buses@[j])
                } else {
                    self.fsmc_buses@[j] == old(self).fsmc_buses@[j]
                },
                forall|j: int| #![trigger self.fsmc_buses@[j]] i <= j < self.fsmc_buses@.len() ==> self.fsmc_buses@[j] == old(self).fsmc_buses@[j],
                self.spi_buses@ == old(self).spi_buses@,
                self.i2c_buses@ == old(self).i2c_buses@,
                self.gpio_delivered() == old(self).gpio_delivered(),
                self.gpio_listened() == old(self).gpio_listened(),
            decreases ranges.len() - i,
        {
            assert(ranges.subrange(0, i + 1).drop_last() =~= ranges.subrange(0, i as int));
            let (base, size) = self.fsmc_ranges[i];
            if addr >= base && addr - base < size {
                let offset = (addr - base) as u32;
                self.fsmc_buses[i].on_write(offset, event.value, width);
                n = n + 1;
            }
            i = i + 1;
        }
        assert(ranges.subrange(0, i as int) =~= ranges);
        n
    }

    /// GPIO ODR and BSRR writes of `port`: the GPIO listeners and the SPI control pins hear of
    /// the pins that changed; other registers change nothing.
    fn dispatch_gpio(&mut self, port: char, event: &MmioWriteEvent)
        requires
            old(self).wf(),
            old(self).pins_in_port(),
        ensures
            final(self).wf(),
            final(self).spi_names() == old(self).spi_names(),
            final(self).spi_cs_pins() == old(self).spi_cs_pins(),
            final(self).spi_dc_pins() == old(self).spi_dc_pins(),
            final(self).i2c_names() == old(self).i2c_names(),
            final(self).fsmc_ranges() == old(self).fsmc_ranges(),
            final(self).gpio_pins() == old(self).gpio_pins(),
            final(self).gpio_listened() == old(self).gpio_listened(),
            final(self).i2c_bus_states() == old(self).i2c_bus_states(),
            final(self).fsmc_bus_states() == old(self).fsmc_bus_states(),
            gpio_dispatched(*old(self), port, *event, *final(self)),
    {
        let reg = event.register.as_str();
        if eq_ignore_ascii_case(reg, "ODR") {
            let val16 = (event.value & 0xFFFF) as u16;
            self.gpio_notifier.notify_mask_diff(port, 0, val16);
            assert(self.spi_cs_pins() == old(self).spi_cs_pins() && self.spi_dc_pins() == old(self).spi_dc_pins());
            assert(self.spi_events() == old(self).spi_events());
            self.bridge_gpio_to_spi_odr(port, val16);
        } else if eq_ignore_ascii_case(reg, "BSRR") {
            let set_mask = (event.value & 0xFFFF) as u16;
            let rst_mask = ((event.value >> 16u32) & 0xFFFF) as u16;
            let mut pin: u8 = 0;
            while pin < 16
                invariant
                    pin <= 16,
                self.wf(),
                self.spi_names() == old(self).spi_names(),
                self.spi_cs_pins() == old(self).spi_cs_pins(),
                self.spi_dc_pins() == old(self).spi_dc_pins(),
                self.i2c_names() == old(self).i2c_names(),
                self.fsmc_ranges() == old(self).fsmc_ranges(),
                self.gpio_pins() == old(self).gpio_pins(),
                self.gpio_listened() == old(self).gpio_listened(),
                    self.pins_in_port(),
                    self.spi_events() == old(self).spi_events(),
                    self.i2c_bus_states() == old(self).i2c_bus_states(),
                    self.fsmc_bus_states() == old(self).fsmc_bus_states(),
                    self.gpio_delivered() == old(self).gpio_delivered() + bsrr_deliveries(
                        old(self).gpio_pins(),
                        old(self).gpio_listened(),
                        port,
                        set_mask,
                        rst_mask,
                        pin as int,
                    ),
                decreases 16 - pin,
            {
                if (set_mask >> pin) & 1 != 0 {
                    self.gpio_notifier.notify(port, pin, true);
                }
                if (rst_mask >> pin) & 1 != 0 {
                    self.gpio_notifier.notify(port, pin, false);
                }
                proof {
                    assert(((pin + 1) as int - 1) as u8 == pin);
                }
                assert(self.gpio_delivered() =~= old(self).gpio_delivered() + bsrr_deliveries(
                    old(self).gpio_pins(),
                    old(self).gpio_listened(),
                    port,
                    set_mask,
                    rst_mask,
                    pin + 1,
                ));
                pin = pin + 1;
            }
            self.bridge_gpio_to_spi_bsrr(port, set_mask, rst_mask);
        }
    }

    /// Passes an ODR value of `port` to the SPI devices: each chip-select pin on the port
    /// selects its device when low, and each data/command pin on the port reports its level
    /// (see `odr_events`).
    fn bridge_gpio_to_spi_odr(&mut self, port: char, val16: u16)
        requires
            old(self).wf(),
            old(self).pins_in_port(),
        ensures
            final(self).wf(),
            final(self).spi_names() == old(self).spi_names(),
            final(self).spi_cs_pins() == old(self).spi_cs_pins(),
            final(self).spi_dc_pins() == old(self).spi_dc_pins(),
            final(self).i2c_names() == old(self).i2c_names(),
            final(self).fsmc_ranges() == old(self).fsmc_ranges(),
            final(self).gpio_pins() == old(self).gpio_pins(),
            final(self).gpio_listened() == old(self).gpio_listened(),
            final(self).i2c_bus_states() == old(self).i2c_bus_states(),
            final(self).fsmc_bus_states() == old(self).fsmc_bus_states(),
            final(self).gpio_delivered() == old(self).gpio_delivered(),
            final(self).spi_events() == spi_events_after(
                old(self).spi_events(),
                |i: int| odr_events(old(self).spi_cs_pins()[i], old(self).spi_dc_pins()[i], port, val16),
            ),
    {
        let mut i: usize = 0;
        while i < self.spi_buses.len()
            invariant
                self.wf(),
                self.spi_names() == old(self).spi_names(),
                self.spi_cs_pins() == old(self).spi_cs_pins(),
                self.spi_dc_pins() == old(self).spi_dc_pins(),
                self.i2c_names() == old(self).i2c_names(),
                self.fsmc_ranges() == old(self).fsmc_ranges(),
                self.gpio_pins() == old(self).gpio_pins(),
                self.gpio_listened() == old(self).gpio_listened(),
                self.pins_in_port(),
                i <= self.spi_buses@.len(),
                self.i2c_bus_states() == old(self).i2c_bus_states(),
                self.fsmc_bus_states() == old(self).fsmc_bus_states(),
                self.gpio_delivered() == old(self).gpio_delivered(),
                self.spi_events() == Seq::new(
                    old(self).spi_events().len(),
                    |t: int| if t < i {
                        old(self).spi_events()[t] + odr_events(old(self).spi_cs_pins()[t], old(self).spi_dc_pins()[t], port, val16)
                    } else {
                        old(self).spi_events()[t]
                    },
                ),
            decreases self.spi_buses@.len() - i,
        {
            assert(pin_in_port(self.spi_cs_pins()[i as int]));
            assert(pin_in_port(self.spi_dc_pins()[i as int]));
            let ghost e0 = self.spi_events()[i as int];
            let ghost before = self.spi_events();
            let ghost cs_ev: Seq<SpiEvent> = Seq::empty();
            let ghost dc_ev: Seq<SpiEvent> = Seq::empty();
            if let Some(cs) = &self.spi_cs[i] {
                if cs.port == port {
                    let shift = cs.pin;
                    let high = (val16 >> shift) & 1 != 0;
                    self.spi_buses[i].on_cs_change(!high);
                    proof { cs_ev = seq![SpiEvent::ChipSelect(!high)]; }
                }
            }
            if let Some(dc) = &self.spi_dc[i] {
                if dc.port == port {
                    let shift = dc.pin;
                    let high = (val16 >> shift) & 1 != 0;
                    self.spi_buses[i].on_gpio_pin_changed(port, shift, high);
                    proof { dc_ev = seq![SpiEvent::PinChanged(port, shift, high)]; }
                }
            }
            proof {
                assert(self.spi_events() =~~= before.update(i as int, e0 + cs_ev + dc_ev));
                assert(cs_ev + dc_ev =~= odr_events(old(self).spi_cs_pins()[i as int], old(self).spi_dc_pins()[i as int], port, val16));
            }
            i = i + 1;
            proof {
                assert(self.spi_events() =~~= Seq::new(
                    old(self).spi_events().len(),
                    |t: int| if t < i {
                        old(self).spi_events()[t] + odr_events(old(self).spi_cs_pins()[t], old(self).spi_dc_pins()[t], port, val16)
                    } else {
                        old(self).spi_events()[t]
                    },
                ));
            }
        }
        assert(self.spi_events() =~= spi_events_after(
            old(self).spi_events(),
            |i: int| odr_events(old(self).spi_cs_pins()[i], old(self).spi_dc_pins()[i], port, val16),
        ));
    }

    /// Passes a BSRR write of `port` to the SPI devices: a set chip-select pin deselects its
    /// device and a reset one selects it (active low); set and reset data/command pins report
    /// high and low (see `bsrr_events`).
    fn bridge_gpio_to_spi_bsrr(&mut self, port: char, set_mask: u16, rst_mask: u16)
        requires
            old(self).wf(),
            old(self).pins_in_port(),
        ensures
            final(self).wf(),
            final(self).spi_names() == old(self).spi_names(),
            final(self).spi_cs_pins() == old(self).spi_cs_pins(),
            final(self).spi_dc_pins() == old(self).spi_dc_pins(),
            final(self).i2c_names() == old(self).i2c_names(),
            final(self).fsmc_ranges() == old(self).fsmc_ranges(),
            final(self).gpio_pins() == old(self).gpio_pins(),
            final(self).gpio_listened() == old(self).gpio_listened(),
            final(self).i2c_bus_states() == old(self).i2c_bus_states(),
            final(self).fsmc_bus_states() == old(self).fsmc_bus_states(),
            final(self).gpio_delivered() == old(self).gpio_delivered(),
            final(self).spi_events() == spi_events_after(
                old(self).spi_events(),
                |i: int| bsrr_events(old(self).spi_cs_pins()[i], old(self).spi_dc_pins()[i], port, set_mask, rst_mask),
            ),
    {
        let mut i: usize = 0;
        while i < self.spi_buses.len()
            invariant
                self.wf(),
                self.spi_names() == old(self).spi_names(),
                self.spi_cs_pins() == old(self).spi_cs_pins(),
                self.spi_dc_pins() == old(self).spi_dc_pins(),
                self.i2c_names() == old(self).i2c_names(),
                self.fsmc_ranges() == old(self).fsmc_ranges(),
                self.gpio_pins() == old(self).gpio_pins(),
                self.gpio_listened() == old(self).gpio_listened(),
                self.pins_in_port(),
                i <= self.spi_buses@.len(),
                self.i2c_bus_states() == old(self).i2c_bus_states(),
                self.fsmc_bus_states() == old(self).fsmc_bus_states(),
                self.gpio_delivered() == old(self).gpio_delivered(),
                self.spi_events() == Seq::new(
                    old(self).spi_events().len(),
                    |t: int| if t < i {
                        old(self).spi_events()[t] + bsrr_events(old(self).spi_cs_pins()[t], old(self).spi_dc_pins()[t], port, set_mask, rst_mask)
                    } else {
                        old(self).spi_events()[t]
                    },
                ),
            decreases self.spi_buses@.len() - i,
        {
            assert(pin_in_port(self.spi_cs_pins()[i as int]));
            assert(pin_in_port(self.spi_dc_pins()[i as int]));
            let ghost e0 = self.spi_events()[i as int];
            let ghost before = self.spi_events();
            let ghost cs_ev: Seq<SpiEvent> = Seq::empty();
            let ghost dc_ev: Seq<SpiEvent> = Seq::empty();
            if let Some(cs) = &self.spi_cs[i] {
                if cs.port == port {
                    let shift = cs.pin;
                    if (set_mask >> shift) & 1 != 0 {
                        self.spi_buses[i].on_cs_change(false);
                        proof { cs_ev = cs_ev.push(SpiEvent::ChipSelect(false)); }
                    }
                    if (rst_mask >> shift) & 1 != 0 {
                        self.spi_buses[i].on_cs_change(true);
                        proof { cs_ev = cs_ev.push(SpiEvent::ChipSelect(true)); }
                    }
                }
            }
            if let Some(dc) = &self.spi_dc[i] {
                if dc.port == port {
                    let shift = dc.pin;
                    if (set_mask >> shift) & 1 != 0 {
                        self.spi_buses[i].on_gpio_pin_changed(port, shift, true);
                        proof { dc_ev = dc_ev.push(SpiEvent::PinChanged(port, shift, true)); }
                    }
                    if (rst_mask >> shift) & 1 != 0 {
                        self.spi_buses[i].on_gpio_pin_changed(port, shift, false);
                        proof { dc_ev = dc_ev.push(SpiEvent::PinChanged(port, shift, false)); }
                    }
                }
            }
            proof {
                assert(self.spi_events() =~~= before.update(i as int, e0 + cs_ev + dc_ev));
                assert(cs_ev + dc_ev =~= bsrr_events(old(self).spi_cs_pins()[i as int], old(self).spi_dc_pins()[i as int], port, set_mask, rst_mask));
            }
            i = i + 1;
            proof {
                assert(self.spi_events() =~~= Seq::new(
                    old(self).spi_events().len(),
                    |t: int| if t < i {
                        old(self).spi_events()[t] + bsrr_events(old(self).spi_cs_pins()[t], old(self).spi_dc_pins()[t], port, set_mask, rst_mask)
                    } else {
                        old(self).spi_events()[t]
                    },
                ));
            }
        }
        assert(self.spi_events() =~= spi_events_after(
            old(self).spi_events(),
            |i: int| bsrr_events(old(self).spi_cs_pins()[i], old(self).spi_dc_pins()[i], port, set_mask, rst_mask),
        ));
    }

    /// Polls every bus device for a new frame, SPI bindings first, then I2C, then FSMC; the
    /// frames that the devices gave, in that order.
    pub fn poll_frames(&mut self) -> (r: Vec<FrameUpdate>)
        requires
            old(self).wf(),
        ensures
            final(self).wf(),
            final(self).spi_names() == old(self).spi_names(),
            final(self).spi_cs_pins() == old(self).spi_cs_pins(),
            final(self).spi_dc_pins() == old(self).spi_dc_pins(),
            final(self).i2c_names() == old(self).i2c_names(),
            final(self).fsmc_ranges() == old(self).fsmc_ranges(),
            final(self).gpio_pins() == old(self).gpio_pins(),
            final(self).gpio_listened() == old(self).gpio_listened(),
            r@.len() <= old(self).binding_count(),
            final(self).gpio_delivered() == old(self).gpio_delivered(),
            polled_upto(old(self).spi_events(), final(self).spi_events(), old(self).spi_events().len() as int, |e: SpiEvent| e is FramePolled),
            polled_upto(old(self).i2c_events(), final(self).i2c_events(), old(self).i2c_events().len() as int, |e: I2cEvent| e is FramePolled),
            polled_upto(old(self).fsmc_events(), final(self).fsmc_events(), old(self).fsmc_events().len() as int, |e: FsmcEvent| e is FramePolled),
            r@ == some_frames(final(self).spi_events().map_values(|e: Seq<SpiEvent>| spi_polled(e))) + some_frames(
                final(self).i2c_events().map_values(|e: Seq<I2cEvent>| i2c_polled(e)),
            ) + some_frames(final(self).fsmc_events().map_values(|e: Seq<FsmcEvent>| fsmc_polled(e))),
    {
        let mut frames: Vec<FrameUpdate> = Vec::new();
        let mut i: usize = 0;
        while i < self.spi_buses.len()
            invariant
                self.wf(),
                self.spi_names() == old(self).spi_names(),
                self.spi_cs_pins() == old(self).spi_cs_pins(),
                self.spi_dc_pins() == old(self).spi_dc_pins(),
                self.i2c_names() == old(self).i2c_names(),
                self.fsmc_ranges() == old(self).fsmc_ranges(),
                self.gpio_pins() == old(self).gpio_pins(),
                self.gpio_listened() == old(self).gpio_listened(),
                i <= self.spi_buses@.len(),
                self.gpio_delivered() == old(self).gpio_delivered(),
                self.i2c_events() == old(self).i2c_events(),
                self.fsmc_events() == old(self).fsmc_events(),
                polled_upto(old(self).spi_events(), self.spi_events(), i as int, |e: SpiEvent| e is FramePolled),
                frames@ == some_frames(self.spi_events().map_values(|e: Seq<SpiEvent>| spi_polled(e)).take(i as int)),
            decreases self.spi_buses@.len() - i,
        {
            let ghost before = self.spi_events();
            let f = self.spi_buses[i].poll_frame();
            let ghost m = self.spi_events().map_values(|e: Seq<SpiEvent>| spi_polled(e));
            proof {
                assert(self.spi_events() =~~= before.update(i as int, before[i as int].push(SpiEvent::FramePolled(f))));
                lemma_polled_step(old(self).spi_events(), before, i as int, SpiEvent::FramePolled(f), |e: SpiEvent| e is FramePolled);
                assert(m[i as int] == f);
                assert(m.take(i + 1).drop_last() =~= before.map_values(|e: Seq<SpiEvent>| spi_polled(e)).take(i as int));
                assert(m.take(i as int) =~= before.map_values(|e: Seq<SpiEvent>| spi_polled(e)).take(i as int));
            }
            if let Some(frame) = f {
                frames.push(frame);
            }
            i = i + 1;
        }
        proof {
            assert(self.spi_events().map_values(|e: Seq<SpiEvent>| spi_polled(e)).take(i as int) =~= self.spi_events().map_values(|e: Seq<SpiEvent>| spi_polled(e)));
        }
        let ghost spi_frames = frames@;
        proof {
            lemma_some_frames_len(self.spi_events().map_values(|e: Seq<SpiEvent>| spi_polled(e)));
        }
        let mut j: usize = 0;
        while j < self.i2c_buses.len()
            invariant
                self.wf(),
                self.spi_names() == old(self).spi_names(),
                self.spi_cs_pins() == old(self).spi_cs_pins(),
                self.spi_dc_pins() == old(self).spi_dc_pins(),
                self.i2c_names() == old(self).i2c_names(),
                self.fsmc_ranges() == old(self).fsmc_ranges(),
                self.gpio_pins() == old(self).gpio_pins(),
                self.gpio_listened() == old(self).gpio_listened(),
                j <= self.i2c_buses@.len(),
                self.gpio_delivered() == old(self).gpio_delivered(),
                self.fsmc_events() == old(self).fsmc_events(),
                polled_upto(old(self).spi_events(), self.spi_events(), old(self).spi_events().len() as int, |e: SpiEvent| e is FramePolled),
                spi_frames == some_frames(self.spi_events().map_values(|e: Seq<SpiEvent>| spi_polled(e))),
                spi_frames.len() <= self.spi_names@.len(),
                polled_upto(old(self).i2c_events(), self.i2c_events(), j as int, |e: I2cEvent| e is FramePolled),
                frames@ == spi_frames + some_frames(self.i2c_events().map_values(|e: Seq<I2cEvent>| i2c_polled(e)).take(j as int)),
            decreases self.i2c_buses@.len() - j,
        {
            let ghost before = self.i2c_events();
            let f = self.i2c_buses[j].poll_frame();
            let ghost m = self.i2c_events().map_values(|e: Seq<I2cEvent>| i2c_polled(e));
            proof {
                assert(self.i2c_events() =~~= before.update(j as int, before[j as int].push(I2cEvent::FramePolled(f))));
                lemma_polled_step(old(self).i2c_events(), before, j as int, I2cEvent::FramePolled(f), |e: I2cEvent| e is FramePolled);
                assert(m[j as int] == f);
                assert(m.take(j + 1).drop_last() =~= before.map_values(|e: Seq<I2cEvent>| i2c_polled(e)).take(j as int));
                assert(m.take(j as int) =~= before.map_values(|e: Seq<I2cEvent>| i2c_polled(e)).take(j as int));
            }
            if let Some(frame) = f {
                frames.push(frame);
            }
            j = j + 1;
        }
        proof {
            assert(self.i2c_events().map_values(|e: Seq<I2cEvent>| i2c_polled(e)).take(j as int) =~= self.i2c_events().map_values(|e: Seq<I2cEvent>| i2c_polled(e)));
        }
        let ghost sj_frames = frames@;
        proof {
            lemma_some_frames_len(self.i2c_events().map_values(|e: Seq<I2cEvent>| i2c_polled(e)));
        }
        let mut k: usize = 0;
        while k < self.fsmc_buses.len()
            invariant
                self.wf(),
                self.spi_names() == old(self).spi_names(),
                self.spi_cs_pins() == old(self).spi_cs_pins(),
                self.spi_dc_pins() == old(self).spi_dc_pins(),
                self.i2c_names() == old(self).i2c_names(),
                self.fsmc_ranges() == old(self).fsmc_ranges(),
                self.gpio_pins() == old(self).gpio_pins(),
                self.gpio_listened() == old(self).gpio_listened(),
                k <= self.fsmc_buses@.len(),
                self.gpio_delivered() == old(self).gpio_delivered(),
                polled_upto(old(self).spi_events(), self.spi_events(), old(self).spi_events().len() as int, |e: SpiEvent| e is FramePolled),
                polled_upto(old(self).i2c_events(), self.i2c_events(), old(self).i2c_events().len() as int, |e: I2cEvent| e is FramePolled),
                sj_frames == some_frames(self.spi_events().map_values(|e: Seq<SpiEvent>| spi_polled(e))) + some_frames(
                    self.i2c_events().map_values(|e: Seq<I2cEvent>| i2c_polled(e)),
                ),
                sj_frames.len() <= self.spi_names@.len() + self.i2c_names@.len(),
                polled_upto(old(self).fsmc_events(), self.fsmc_events(), k as int, |e: FsmcEvent| e is FramePolled),
                frames@ == sj_frames + some_frames(self.fsmc_events().map_values(|e: Seq<FsmcEvent>| fsmc_polled(e)).take(k as int)),
            decreases self.fsmc_buses@.len() - k,
        {
            let ghost before = self.fsmc_events();
            let f = self.fsmc_buses[k].poll_frame();
            let ghost m = self.fsmc_events().map_values(|e: Seq<FsmcEvent>| fsmc_polled(e));
            proof {
                assert(self.fsmc_events() =~~= before.update(k as int, before[k as int].push(FsmcEvent::FramePolled(f))));
                lemma_polled_step(old(self).fsmc_events(), before, k as int, FsmcEvent::FramePolled(f), |e: FsmcEvent| e is FramePolled);
                assert(m[k as int] == f);
                assert(m.take(k + 1).drop_last() =~= before.map_values(|e: Seq<FsmcEvent>| fsmc_polled(e)).take(k as int));
                assert(m.take(k as int) =~= before.map_values(|e: Seq<FsmcEvent>| fsmc_polled(e)).take(k as int));
            }
            if let Some(frame) = f {
                frames.push(frame);
            }
            k = k + 1;
        }
        proof {
            assert(self.fsmc_events().map_values(|e: Seq<FsmcEvent>| fsmc_polled(e)).take(k as int) =~= self.fsmc_events().map_values(|e: Seq<FsmcEvent>| fsmc_polled(e)));
            lemma_some_frames_len(self.fsmc_events().map_values(|e: Seq<FsmcEvent>| fsmc_polled(e)));
            assert(self.fsmc_events().len() == self.fsmc_ranges@.len());
        }
        frames
    }

    /// Whether any SPI, I2C or FSMC bus is registered.
    pub fn has_bus_devices(&self) -> (r: bool)
        requires
            self.wf(),
        ensures
            r == (self.binding_count() > 0),
    {
        self.spi_names.len() > 0 || self.i2c_names.len() > 0 || self.fsmc_ranges.len() > 0
    }
}

} // verus!
