pub mod access;
pub mod adc_dac;
pub mod bus_context;
pub mod device;
pub mod dma;
pub mod fsmc_bus;
pub mod gpio;
pub mod i2c_bus;
pub mod irq;
pub mod spi_bus;
pub mod uart_bus;
pub mod traits;

pub use access::{AccessWidth, CanFrame};
pub use traits::SystemBus;
