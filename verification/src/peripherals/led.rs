//! An LED on a GPIO pin: on or off by the pin's level, reported when it changes.
use crate::bus::traits::GpioListener;
use crate::peripherals::config::PinMapping;
use crate::text::{ascii_upper, char_upper, concat3, decimal, decimal_message, is_white, to_upper, white};
use vstd::prelude::*;

verus! {

/// Told when an LED turns on or off.
pub trait LedObserver: Send {
    fn led_changed(&mut self, id: &str, on: bool);
}

/// Whether `port` (a pin mapping's port, surrounding white space ignored) is the single
/// letter `c`, up to ASCII case.
pub open spec fn names_port(port: Seq<char>, c: char) -> bool {
    exists|i: int|
        0 <= i < port.len() && !is_white(#[trigger] port[i]) && ascii_upper(port[i]) == ascii_upper(c) && forall|
            k: int,
        |
            0 <= k < port.len() && k != i ==> is_white(port[k])
}

/// Whether `port` names the port letter `c` (see `names_port`).
pub fn port_matches(port: &str, c: char) -> (r: bool)
    ensures
        r == names_port(port@, c),
{
    let n = port.unicode_len();
    let mut count: usize = 0;
    let mut found: char = '\0';
    let ghost mut at: int = 0;
    let mut i: usize = 0;
    while i < n
        invariant
            n == port@.len(),
            i <= n,
            count <= i,
            count == 0 ==> forall|k: int| 0 <= k < i ==> is_white(port@[k]),
            count == 1 ==> 0 <= at < i && port@[at] == found && !is_white(found) && forall|k: int|
                0 <= k < i && k != at ==> is_white(port@[k]),
            count >= 2 ==> !names_port(port@, c),
        decreases n - i,
    {
        let ch = port.get_char(i);
        if !white(ch) {
            if count == 0 {
                found = ch;
                proof {
                    at = i as int;
                }
                count = 1;
            } else if count == 1 {
                proof {
                    assert forall|j: int|
                        0 <= j < port@.len() && !is_white(#[trigger] port@[j]) && ascii_upper(port@[j])
                            == ascii_upper(c) implies !(forall|k: int|
                        0 <= k < port@.len() && k != j ==> is_white(port@[k])) by {
                        if j == at {
                            assert(i as int != j && !is_white(port@[i as int]));
                        } else {
                            assert(at != j && !is_white(port@[at]));
                        }
                    }
                }
                count = 2;
            }
        }
        i = i + 1;
    }
    if count == 1 {
        let r = char_upper(found) == char_upper(c);
        proof {
            if !r {
                assert forall|j: int|
                    0 <= j < port@.len() && !is_white(#[trigger] port@[j]) && ascii_upper(port@[j]) == ascii_upper(
                        c,
                    ) implies !(forall|k: int| 0 <= k < port@.len() && k != j ==> is_white(port@[k])) by {
                    assert(j == at);
                }
            }
        }
        r
    } else {
        proof {
            if count == 0 {
                assert forall|j: int|
                    0 <= j < port@.len() && !is_white(#[trigger] port@[j]) && ascii_upper(port@[j]) == ascii_upper(
                        c,
                    ) implies false by {}
            }
        }
        false
    }
}

/// An LED on a GPIO pin, lit at the pin's low level when active-low.
pub struct Led {
    id: String,
    pin: PinMapping,
    active_low: bool,
    level_high: bool,
    last_on: Option<bool>,
    on_change: Option<Box<dyn LedObserver>>,
}

impl Led {
    pub closed spec fn spec_id(&self) -> Seq<char> {
        self.id@
    }

    pub closed spec fn spec_port(&self) -> Seq<char> {
        self.pin.port@
    }

    pub closed spec fn spec_pin(&self) -> u8 {
        self.pin.pin
    }

    pub closed spec fn spec_active_low(&self) -> bool {
        self.active_low
    }

    /// The pin's last level.
    pub closed spec fn spec_level_high(&self) -> bool {
        self.level_high
    }

    /// Whether an observer is told of changes.
    pub closed spec fn has_observer(&self) -> bool {
        self.on_change is Some
    }

    /// The state last reported.
    pub closed spec fn spec_last_on(&self) -> Option<bool> {
        self.last_on
    }

    /// Whether the LED is lit at the pin's current level.
    pub open spec fn spec_on(&self) -> bool {
        if self.spec_active_low() { !self.spec_level_high() } else { self.spec_level_high() }
    }

    /// An LED on `pin` whose pin starts high; no state reported yet.
    pub fn new(id: String, pin: PinMapping, active_low: bool) -> (r: Self)
        ensures
            r.spec_id() == id@,
            r.spec_port() == pin.port@,
            r.spec_pin() == pin.pin,
            r.spec_active_low() == active_low,
            r.spec_level_high(),
            r.spec_last_on() is None,
            !r.has_observer(),
    {
        Led { id, pin, active_low, level_high: true, last_on: None, on_change: None }
    }

    /// The LED with an observer told of every change of state.
    pub fn with_callback(self, cb: Box<dyn LedObserver>) -> (r: Self)
        ensures
            r.spec_id() == self.spec_id(),
            r.spec_port() == self.spec_port(),
            r.spec_pin() == self.spec_pin(),
            r.spec_active_low() == self.spec_active_low(),
            r.spec_level_high() == self.spec_level_high(),
            r.spec_last_on() == self.spec_last_on(),
            r.has_observer(),
    {
        let mut led = self;
        led.on_change = Some(cb);
        led
    }

    /// The pin's name as logs show it: `P`, the port in upper case, the pin number.
    pub fn pin_name(&self) -> (r: String)
        ensures
            r@ == seq!['P'] + self.spec_port().map_values(|c: char| ascii_upper(c)) + decimal(self.spec_pin() as nat),
    {
        proof {
            reveal_strlit("P");
            reveal_strlit("");
        }
        let port = to_upper(self.pin.port.as_str());
        let head = concat3("P", port.as_str(), "");
        let r = decimal_message(head.as_str(), self.pin.pin, "");
        assert(r@ =~= seq!['P'] + self.spec_port().map_values(|c: char| ascii_upper(c)) + decimal(self.spec_pin() as nat));
        r
    }

    /// Whether the LED is lit now.
    pub fn is_on(&self) -> (r: bool)
        ensures
            r == self.spec_on(),
    {
        if self.active_low { !self.level_high } else { self.level_high }
    }

    /// The pin is now at level `high`; a change of the LED's state is reported (the observer
    /// is told) and returned.
    pub fn update_level(&mut self, high: bool) -> (r: Option<bool>)
        ensures
            final(self).spec_level_high() == high,
            r == (if old(self).spec_last_on() == Some(final(self).spec_on()) {
                None
            } else {
                Some(final(self).spec_on())
            }),
            final(self).spec_last_on() == Some(final(self).spec_on()),
            final(self).spec_id() == old(self).spec_id(),
            final(self).spec_port() == old(self).spec_port(),
            final(self).spec_pin() == old(self).spec_pin(),
            final(self).spec_active_low() == old(self).spec_active_low(),
    {
        self.level_high = high;
        let on = self.is_on();
        if self.last_on == Some(on) {
            return None;
        }
        self.last_on = Some(on);
        match &mut self.on_change {
            Some(cb) => cb.led_changed(self.id.as_str(), on),
            None => {},
        }
        Some(on)
    }

    /// A GPIO pin changed: the LED follows it when it is the LED's pin.
    pub fn on_pin(&mut self, port: char, pin: u8, high: bool) -> (r: Option<bool>)
        ensures
            if names_port(old(self).spec_port(), port) && pin == old(self).spec_pin() {
                &&& final(self).spec_level_high() == high
                &&& final(self).spec_last_on() == Some(final(self).spec_on())
                &&& r == (if old(self).spec_last_on() == Some(final(self).spec_on()) {
                    None
                } else {
                    Some(final(self).spec_on())
                })
            } else {
                &&& r is None
                &&& final(self).spec_level_high() == old(self).spec_level_high()
                &&& final(self).spec_last_on() == old(self).spec_last_on()
            },
            final(self).spec_id() == old(self).spec_id(),
            final(self).spec_port() == old(self).spec_port(),
            final(self).spec_pin() == old(self).spec_pin(),
            final(self).spec_active_low() == old(self).spec_active_low(),
    {
        if port_matches(self.pin.port.as_str(), port) && pin == self.pin.pin {
            self.update_level(high)
        } else {
            None
        }
    }
}

impl GpioListener for Led {
    fn pin_changed(&mut self, port: char, pin: u8, high: bool) {
        self.on_pin(port, pin, high);
    }
}

} // verus!
