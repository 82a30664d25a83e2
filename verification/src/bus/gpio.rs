//! GPIO pin-change notification.
use crate::bus::traits::GpioListener;
use crate::text::{ascii_upper, char_upper};
use vstd::prelude::*;

verus! {

/// A (port, pin) pair used as a listener registration key; the port letter is upper-case.
#[derive(Debug, Clone, PartialEq, Eq, Hash, Structural)]
pub struct GpioPin {
    pub port: char,
    pub pin: u8,
}

impl GpioPin {
    pub fn new(port: char, pin: u8) -> (r: Self)
        ensures
            r.port == ascii_upper(port),
            r.pin == pin,
    {
        GpioPin { port: char_upper(port), pin }
    }
}

/// GPIO event notifier: dispatches pin-change events to the listeners registered for
/// (port, pin) pairs. `pins[i]` is the pin that `listeners[i]` watches.
pub struct GpioNotifier {
    pins: Vec<GpioPin>,
    listeners: Vec<Box<dyn GpioListener>>,
    delivered: Ghost<Seq<(int, char, u8, bool)>>,
}

/// The deliveries of a change of (`port`, `pin`) to `high` among the first `n` listeners: one
/// `(listener, port, pin, high)` to each that watches that pin, in order.
pub open spec fn deliveries(pins: Seq<GpioPin>, n: int, port: char, pin: u8, high: bool) -> Seq<(int, char, u8, bool)>
    decreases n,
{
    if n <= 0 {
        Seq::empty()
    } else if pins[n - 1].port == port && pins[n - 1].pin == pin {
        deliveries(pins, n - 1, port, pin, high).push((n - 1, port, pin, high))
    } else {
        deliveries(pins, n - 1, port, pin, high)
    }
}

/// The deliveries for the pins `p < k` set in `mask`, in pin order, each with its level in
/// `new_val`.
pub open spec fn mask_deliveries(pins: Seq<GpioPin>, n: int, port: char, mask: u16, new_val: u16, k: int) -> Seq<(int, char, u8, bool)>
    decreases k,
{
    if k <= 0 {
        Seq::empty()
    } else {
        let p = (k - 1) as u8;
        let d = mask_deliveries(pins, n, port, mask, new_val, k - 1);
        if (mask >> p) & 1 != 0 {
            d + deliveries(pins, n, port, p, (new_val >> p) & 1 != 0)
        } else {
            d
        }
    }
}

proof fn lemma_no_mask_no_deliveries(pins: Seq<GpioPin>, n: int, port: char, new_val: u16, k: int)
    requires
        0 <= k <= 16,
    ensures
        mask_deliveries(pins, n, port, 0, new_val, k) == Seq::<(int, char, u8, bool)>::empty(),
    decreases k,
{
    if k > 0 {
        let p = (k - 1) as u8;
        assert((0u16 >> p) & 1 == 0) by (bit_vector);
        lemma_no_mask_no_deliveries(pins, n, port, new_val, k - 1);
    }
}

/// Bit mask of the pins (0..15) of port `port` that some entry watches.
pub open spec fn port_mask(pins: Seq<GpioPin>, port: char, n: int) -> u16
    decreases n,
{
    if n <= 0 || n > pins.len() {
        0
    } else if pins[n - 1].port == port && pins[n - 1].pin < 16 {
        port_mask(pins, port, n - 1) | (1u16 << pins[n - 1].pin)
    } else {
        port_mask(pins, port, n - 1)
    }
}

impl GpioNotifier {
    pub closed spec fn pins(&self) -> Seq<GpioPin> {
        self.pins@
    }

    /// How many listeners are registered with their pins.
    pub closed spec fn listened(&self) -> int {
        if self.pins@.len() <= self.listeners@.len() {
            self.pins@.len() as int
        } else {
            self.listeners@.len() as int
        }
    }

    /// Every pin change passed to a listener: (listener, port, pin, level), in order.
    pub closed spec fn delivered(&self) -> Seq<(int, char, u8, bool)> {
        self.delivered@
    }

    pub fn new() -> (r: Self)
        ensures
            r.pins().len() == 0,
            r.listened() == 0,
            r.delivered().len() == 0,
    {
        GpioNotifier { pins: Vec::new(), listeners: Vec::new(), delivered: Ghost(Seq::empty()) }
    }

    /// Registers a listener for a specific pin.
    pub fn register(&mut self, pin: GpioPin, listener: Box<dyn GpioListener>)
        ensures
            final(self).pins() == old(self).pins().push(pin),
            final(self).delivered() == old(self).delivered(),
    {
        self.pins.push(pin);
        self.listeners.push(listener);
    }

    /// Tells every listener watching (`port`, `pin`) (port in any ASCII case) that the pin is
    /// now `high`.
    pub fn notify(&mut self, port: char, pin: u8, high: bool)
        ensures
            final(self).pins() == old(self).pins(),
            final(self).listened() == old(self).listened(),
            final(self).delivered() == old(self).delivered() + deliveries(
                old(self).pins(),
                old(self).listened(),
                ascii_upper(port),
                pin,
                high,
            ),
    {
        let port = char_upper(port);
        let mut i: usize = 0;
        while i < self.pins.len() && i < self.listeners.len()
            invariant
                self.pins@ == old(self).pins(),
                self.listeners@.len() == old(self).listeners@.len(),
                self.listened() == old(self).listened(),
                i <= self.listened(),
                self.delivered@ == old(self).delivered() + deliveries(self.pins@, i as int, port, pin, high),
            decreases self.pins@.len() - i,
        {
            if self.pins[i].port == port && self.pins[i].pin == pin {
                self.listeners[i].pin_changed(port, pin, high);
                self.delivered = Ghost(self.delivered@.push((i as int, port, pin, high)));
            }
            i = i + 1;
        }
    }

    /// The pins (as a bit mask) of `port` whose level differs between `old_val` and `new_val`
    /// and that some listener watches.
    pub fn changed_watched_pins(&self, port: char, old_val: u16, new_val: u16) -> (r: u16)
        ensures
            r == (old_val ^ new_val) & port_mask(self.pins(), ascii_upper(port), self.pins().len() as int),
    {
        let port_upper = char_upper(port);
        let mut relevant_bits = 0u16;
        let mut i: usize = 0;
        while i < self.pins.len()
            invariant
                i <= self.pins@.len(),
                port_upper == ascii_upper(port),
                relevant_bits == port_mask(self.pins@, port_upper, i as int),
            decreases self.pins@.len() - i,
        {
            if self.pins[i].port == port_upper && self.pins[i].pin < 16 {
                relevant_bits = relevant_bits | (1u16 << self.pins[i].pin);
            }
            i = i + 1;
        }
        (old_val ^ new_val) & relevant_bits
    }

    /// Notifies the listeners of every pin (0..15) of `port` in
    /// `changed_watched_pins(port, old_val, new_val)`, with its level in `new_val`.
    pub fn notify_mask_diff(&mut self, port: char, old_val: u16, new_val: u16)
        ensures
            final(self).pins() == old(self).pins(),
            final(self).listened() == old(self).listened(),
            final(self).delivered() == old(self).delivered() + mask_deliveries(
                old(self).pins(),
                old(self).listened(),
                ascii_upper(port),
                (old_val ^ new_val) & port_mask(old(self).pins(), ascii_upper(port), old(self).pins().len() as int),
                new_val,
                16,
            ),
    {
        let to_check = self.changed_watched_pins(port, old_val, new_val);
        let port_upper = char_upper(port);
        if to_check == 0 {
            proof {
                lemma_no_mask_no_deliveries(self.pins@, self.listened(), port_upper, new_val, 16);
                assert(self.delivered@ =~= self.delivered@ + Seq::<(int, char, u8, bool)>::empty());
            }
            return;
        }
        let mut pin: u8 = 0;
        while pin < 16
            invariant
                pin <= 16,
                self.pins@ == old(self).pins(),
                self.listened() == old(self).listened(),
                port_upper == ascii_upper(port),
                self.delivered@ == old(self).delivered() + mask_deliveries(
                    old(self).pins(),
                    old(self).listened(),
                    port_upper,
                    to_check,
                    new_val,
                    pin as int,
                ),
            decreases 16 - pin,
        {
            let ghost before = self.delivered@;
            if (to_check >> pin) & 1 != 0 {
                let high = (new_val >> pin) & 1 != 0;
                self.notify(port_upper, pin, high);
            }
            proof {
                assert(((pin + 1) as int - 1) as u8 == pin);
            }
            assert(self.delivered@ =~= old(self).delivered() + mask_deliveries(
                old(self).pins(),
                old(self).listened(),
                port_upper,
                to_check,
                new_val,
                pin + 1,
            ));
            pin = pin + 1;
        }
    }

    /// Number of registered pins.
    pub fn listener_count(&self) -> (r: usize)
        ensures
            r == self.pins().len(),
    {
        self.pins.len()
    }
}

} // verus!
