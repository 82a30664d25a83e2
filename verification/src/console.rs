//! Serial console of the command-line emulator: what a UART terminal prints for each byte the
//! firmware transmits.
use crate::text::{concat3, eq_ignore_ascii_case, eq_ignore_case};
use vstd::prelude::*;

verus! {

/// What to print for one transmitted byte: an optional line prefix, then the byte; `flush`
/// tells that the line is complete.
pub struct TxOutput {
    pub prefix: Option<String>,
    pub byte: u8,
    pub flush: bool,
}

/// A terminal bound to one UART peripheral. With several terminals each line starts with the
/// peripheral's name in brackets.
pub struct UartTerminalConsole {
    pub peripheral: String,
    pub show_prefix: bool,
    pub at_line_start: bool,
}

impl UartTerminalConsole {
    /// A terminal for `peripheral`, at the start of a line.
    pub fn new(peripheral: &str, show_prefix: bool) -> (r: Self)
        ensures
            r.peripheral@ == peripheral@,
            r.show_prefix == show_prefix,
            r.at_line_start,
    {
        UartTerminalConsole { peripheral: peripheral.to_string(), show_prefix, at_line_start: true }
    }

    pub fn peripheral_name(&self) -> (r: &str)
        ensures
            r@ == self.peripheral@,
    {
        self.peripheral.as_str()
    }

    /// Whether `peripheral` names this terminal's UART, ignoring ASCII case.
    pub fn matches_peripheral(&self, peripheral: &str) -> (r: bool)
        ensures
            r == eq_ignore_case(self.peripheral@, peripheral@),
    {
        eq_ignore_ascii_case(self.peripheral.as_str(), peripheral)
    }

    /// The output for a transmitted byte: the prefix `[name] ` when prefixes are shown and a
    /// line starts here; a newline ends the line and asks for a flush.
    pub fn write_tx_byte(&mut self, byte: u8) -> (r: TxOutput)
        ensures
            r.byte == byte,
            r.flush == (byte == 10),
            match r.prefix {
                Some(p) => old(self).show_prefix && old(self).at_line_start && p@ == "["@ + old(self).peripheral@ + "] "@,
                None => !(old(self).show_prefix && old(self).at_line_start),
            },
            final(self).at_line_start == (byte == 10),
            final(self).peripheral@ == old(self).peripheral@,
            final(self).show_prefix == old(self).show_prefix,
    {
        let prefix = if self.show_prefix && self.at_line_start {
            Some(concat3("[", self.peripheral.as_str(), "] "))
        } else {
            None
        };
        self.at_line_start = byte == 10;
        TxOutput { prefix, byte, flush: byte == 10 }
    }
}

} // verus!
