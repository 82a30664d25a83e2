pub mod config;
pub mod display;
pub mod framebuf;
pub mod led;
pub mod ssd1306;

pub use config::{PeripheralConfig, PinMapping};
