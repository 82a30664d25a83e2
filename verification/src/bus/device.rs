//! Device handles: what a device can be attached as, and how to reach that side of it.
use crate::bus::traits::{AnalogSink, AnalogSource, CanNode, GpioListener, I2cSlave, ParallelDevice, SpiSlave, UartDevice, UsbDevice};
use vstd::prelude::*;

verus! {

pub const CAP_SPI_SLAVE: u32 = 0x01;

pub const CAP_I2C_SLAVE: u32 = 0x02;

pub const CAP_UART_DEVICE: u32 = 0x04;

pub const CAP_PARALLEL: u32 = 0x08;

pub const CAP_GPIO_LISTENER: u32 = 0x10;

pub const CAP_ANALOG_SOURCE: u32 = 0x20;

pub const CAP_ANALOG_SINK: u32 = 0x40;

pub const CAP_CAN_NODE: u32 = 0x80;

pub const CAP_USB_DEVICE: u32 = 0x100;

/// Every capability bit.
pub const CAP_ALL: u32 = 0x1FF;

/// A set of device capabilities (the `CAP_*` bits).
#[derive(Debug, Clone, Copy, PartialEq, Eq, Structural)]
pub struct DeviceCapabilities {
    bits: u32,
}

impl DeviceCapabilities {
    pub closed spec fn spec_bits(&self) -> u32 {
        self.bits
    }

    /// No capability.
    pub fn empty() -> (r: Self)
        ensures
            r.spec_bits() == 0,
    {
        DeviceCapabilities { bits: 0 }
    }

    /// Every capability.
    pub fn all() -> (r: Self)
        ensures
            r.spec_bits() == CAP_ALL,
    {
        DeviceCapabilities { bits: CAP_ALL }
    }

    /// The capabilities among `bits` (unknown bits dropped).
    pub fn from_bits_truncate(bits: u32) -> (r: Self)
        ensures
            r.spec_bits() == bits & CAP_ALL,
    {
        DeviceCapabilities { bits: bits & CAP_ALL }
    }

    pub fn bits(&self) -> (r: u32)
        ensures
            r == self.spec_bits(),
    {
        self.bits
    }

    /// Whether every capability of `other` is in `self`.
    pub fn contains(&self, other: DeviceCapabilities) -> (r: bool)
        ensures
            r == (self.spec_bits() & other.spec_bits() == other.spec_bits()),
    {
        self.bits & other.bits == other.bits
    }

    /// The capabilities of either.
    pub fn union(&self, other: DeviceCapabilities) -> (r: Self)
        ensures
            r.spec_bits() == self.spec_bits() | other.spec_bits(),
    {
        DeviceCapabilities { bits: self.bits | other.bits }
    }

    pub fn is_empty(&self) -> (r: bool)
        ensures
            r == (self.spec_bits() == 0),
    {
        self.bits == 0
    }
}

/// Capability entry point of a device: a device overrides the methods of the sides it has;
/// the others answer `None`.
pub trait BusAttach: Send {
    fn as_spi_slave(&mut self) -> Option<&mut dyn SpiSlave> {
        None
    }

    fn as_i2c_slave(&mut self) -> Option<&mut dyn I2cSlave> {
        None
    }

    fn as_uart_device(&mut self) -> Option<&mut dyn UartDevice> {
        None
    }

    fn as_parallel(&mut self) -> Option<&mut dyn ParallelDevice> {
        None
    }

    fn as_gpio_listener(&mut self) -> Option<&mut dyn GpioListener> {
        None
    }

    fn as_analog_source(&mut self) -> Option<&mut dyn AnalogSource> {
        None
    }

    fn as_analog_sink(&mut self) -> Option<&mut dyn AnalogSink> {
        None
    }

    fn as_can_node(&mut self) -> Option<&mut dyn CanNode> {
        None
    }

    fn as_usb_device(&mut self) -> Option<&mut dyn UsbDevice> {
        None
    }
}

/// A device with its declared capabilities.
pub struct DeviceHandle {
    pub capabilities: DeviceCapabilities,
    inner: Box<dyn BusAttach>,
}

impl DeviceHandle {
    /// The capabilities the handle was declared with.
    pub closed spec fn spec_capabilities(&self) -> DeviceCapabilities {
        self.capabilities
    }

    pub fn new(capabilities: DeviceCapabilities, inner: Box<dyn BusAttach>) -> (r: Self)
        ensures
            r.spec_capabilities() == capabilities,
    {
        DeviceHandle { capabilities, inner }
    }

    pub fn as_spi_slave(&mut self) -> Option<&mut dyn SpiSlave> {
        self.inner.as_spi_slave()
    }

    pub fn as_i2c_slave(&mut self) -> Option<&mut dyn I2cSlave> {
        self.inner.as_i2c_slave()
    }

    pub fn as_uart_device(&mut self) -> Option<&mut dyn UartDevice> {
        self.inner.as_uart_device()
    }

    pub fn as_parallel(&mut self) -> Option<&mut dyn ParallelDevice> {
        self.inner.as_parallel()
    }

    pub fn as_gpio_listener(&mut self) -> Option<&mut dyn GpioListener> {
        self.inner.as_gpio_listener()
    }

    pub fn as_analog_source(&mut self) -> Option<&mut dyn AnalogSource> {
        self.inner.as_analog_source()
    }

    pub fn as_analog_sink(&mut self) -> Option<&mut dyn AnalogSink> {
        self.inner.as_analog_sink()
    }

    pub fn as_can_node(&mut self) -> Option<&mut dyn CanNode> {
        self.inner.as_can_node()
    }

    pub fn as_usb_device(&mut self) -> Option<&mut dyn UsbDevice> {
        self.inner.as_usb_device()
    }
}

/// A device type that can be created by name.
pub trait DeviceRegistry: Send + Sync {
    fn name(&self) -> &str;

    fn capabilities(&self) -> DeviceCapabilities;

    fn create(&self) -> DeviceHandle;
}

} // verus!
