//! Board peripheral descriptions, as a board file declares them.
use std::collections::HashMap;
use vstd::prelude::*;

verus! {

/// A GPIO pin of a board: port name (such as "A") and pin number.
#[derive(Debug, Clone)]
pub struct PinMapping {
    pub port: String,
    pub pin: u8,
}

/// A peripheral attached to the board.
#[derive(Debug, Clone)]
pub enum PeripheralConfig {
    /// ST7789 display on SPI, with chip-select, data/command and optional reset pins.
    St7789Spi { width: u16, height: u16, spi_base: u64, cs: PinMapping, dc: PinMapping, res: Option<PinMapping> },
    /// ST7789 display on the FSMC bus.
    St7789Fsmc { width: u16, height: u16, fsmc_base: u64 },
    /// An LED on a GPIO pin.
    Led { id: Option<String>, pin: PinMapping, active_low: bool },
    /// SSD1306 display on an I2C bus at a 7-bit address.
    Ssd1306I2c { width: u16, height: u16, i2c: String, address: u8 },
    /// A UART with optional TX and RX pins.
    Uart { usart: String, tx: Option<PinMapping>, rx: Option<PinMapping> },
    /// A push button on a GPIO pin.
    Button { id: String, pin: PinMapping },
    /// A potentiometer on an ADC channel ("horizontal" or "vertical").
    Potentiometer { id: String, pin: PinMapping, adc: String, orientation: String },
    /// A two-axis joystick on two ADC channels.
    Joystick { id: String, pin_x: PinMapping, pin_y: PinMapping, adc_x: String, adc_y: String },
    /// A peripheral type the board names but the emulator does not know; its parameters are
    /// kept as given.
    Custom { custom_type: String, params: HashMap<String, String> },
}

} // verus!
