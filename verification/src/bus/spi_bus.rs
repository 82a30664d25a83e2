//! SPI bus controller: between the machine's register layer and an SPI slave device.
use crate::bus::irq::IrqCallback;
use crate::bus::traits::{FrameUpdate, SpiSlave};
use vstd::prelude::*;

verus! {

/// What the bus passed to its slave, in order.
pub enum SpiEvent {
    /// A byte was transferred; the slave answered the second byte.
    Transfer(u8, u8),
    ChipSelect(bool),
    PinChanged(char, u8, bool),
    Reset,
    /// The slave was asked for a frame and gave this answer.
    FramePolled(Option<FrameUpdate>),
}

/// SPI bus controller. A write of SPI_DR is sent to the slave and its MISO byte latched; a
/// read of SPI_DR takes the latched byte.
pub struct SpiBus {
    device: Box<dyn SpiSlave>,
    rx_latch: Option<u8>,
    irq_callback: Option<IrqCallback>,
    irq_number: Option<u8>,
    log: Ghost<Seq<SpiEvent>>,
    raised: Ghost<Seq<u8>>,
}

impl SpiBus {
    pub closed spec fn latch(&self) -> Option<u8> {
        self.rx_latch
    }

    pub closed spec fn spec_irq(&self) -> Option<u8> {
        self.irq_number
    }

    /// Whether an interrupt callback is set.
    pub closed spec fn has_callback(&self) -> bool {
        self.irq_callback is Some
    }

    /// Everything the bus has passed to its slave.
    pub closed spec fn events(&self) -> Seq<SpiEvent> {
        self.log@
    }

    /// The interrupts the bus has raised.
    pub closed spec fn raised(&self) -> Seq<u8> {
        self.raised@
    }

    /// The interrupts after one more interrupt request: the IRQ number is raised when it and a
    /// callback are set.
    pub open spec fn raised_after(&self) -> Seq<u8> {
        if self.has_callback() && self.spec_irq() is Some {
            self.raised().push(self.spec_irq()->0)
        } else {
            self.raised()
        }
    }

    /// After a write of SPI_DR whose transfer the slave answered with `reply`.
    pub open spec fn dr_write_post(after: SpiBus, reply: u8) -> bool {
        after.latch() == Some(reply)
    }

    /// A write of SPI_DR with `data` took `before` to `after`: the slave received one transfer
    /// of `data`, its answer is latched, and the interrupt was requested.
    pub open spec fn dr_write_step(before: SpiBus, data: u8, after: SpiBus) -> bool {
        &&& after.latch() is Some
        &&& after.spec_irq() == before.spec_irq()
        &&& after.has_callback() == before.has_callback()
        &&& after.events() == before.events().push(SpiEvent::Transfer(data, after.latch()->0))
        &&& after.raised() == before.raised_after()
    }

    /// A read of SPI_DR from `before` that gave `r` and left `after`.
    pub open spec fn dr_read_post(before: SpiBus, r: Option<u8>, after: SpiBus) -> bool {
        r == before.latch() && after.latch() is None
    }

    pub fn new(device: Box<dyn SpiSlave>) -> (r: Self)
        ensures
            r.latch() is None,
            r.spec_irq() is None,
            !r.has_callback(),
            r.events().len() == 0,
            r.raised().len() == 0,
    {
        SpiBus { device, rx_latch: None, irq_callback: None, irq_number: None, log: Ghost(Seq::empty()), raised: Ghost(Seq::empty()) }
    }

    /// Sets the IRQ number and callback of this bus.
    pub fn set_irq(&mut self, irq_number: u8, callback: IrqCallback)
        ensures
            final(self).spec_irq() == Some(irq_number),
            final(self).has_callback(),
            final(self).latch() == old(self).latch(),
            final(self).events() == old(self).events(),
            final(self).raised() == old(self).raised(),
    {
        self.irq_number = Some(irq_number);
        self.irq_callback = Some(callback);
    }

    /// Firmware wrote SPI_DR: `data` goes to the slave; its answer is latched and returned,
    /// and the interrupt is raised.
    pub fn on_dr_write(&mut self, data: u8) -> (r: u8)
        ensures
            SpiBus::dr_write_post(*final(self), r),
            SpiBus::dr_write_step(*old(self), data, *final(self)),
    {
        let miso = self.device.transfer(data);
        self.rx_latch = Some(miso);
        self.log = Ghost(self.log@.push(SpiEvent::Transfer(data, miso)));
        self.fire_irq();
        miso
    }

    /// Firmware read SPI_DR: the latched byte, which is consumed (the slave is not asked).
    pub fn on_dr_read(&mut self) -> (r: Option<u8>)
        ensures
            SpiBus::dr_read_post(*old(self), r, *final(self)),
            final(self).spec_irq() == old(self).spec_irq(),
            final(self).has_callback() == old(self).has_callback(),
            final(self).events() == old(self).events(),
            final(self).raised() == old(self).raised(),
    {
        self.rx_latch.take()
    }

    /// The chip-select line changed.
    pub fn on_cs_change(&mut self, active: bool)
        ensures
            final(self).latch() == old(self).latch(),
            final(self).spec_irq() == old(self).spec_irq(),
            final(self).has_callback() == old(self).has_callback(),
            final(self).events() == old(self).events().push(SpiEvent::ChipSelect(active)),
            final(self).raised() == old(self).raised(),
    {
        self.device.chip_select(active);
        self.log = Ghost(self.log@.push(SpiEvent::ChipSelect(active)));
    }

    /// A control line wired to the slave (such as DC) changed.
    pub fn on_gpio_pin_changed(&mut self, port: char, pin: u8, high: bool)
        ensures
            final(self).latch() == old(self).latch(),
            final(self).spec_irq() == old(self).spec_irq(),
            final(self).has_callback() == old(self).has_callback(),
            final(self).events() == old(self).events().push(SpiEvent::PinChanged(port, pin, high)),
            final(self).raised() == old(self).raised(),
    {
        self.device.gpio_pin_changed(port, pin, high);
        self.log = Ghost(self.log@.push(SpiEvent::PinChanged(port, pin, high)));
    }

    /// Resets the slave and drops the latched byte.
    pub fn reset(&mut self)
        ensures
            final(self).latch() is None,
            final(self).spec_irq() == old(self).spec_irq(),
            final(self).has_callback() == old(self).has_callback(),
            final(self).events() == old(self).events().push(SpiEvent::Reset),
            final(self).raised() == old(self).raised(),
    {
        self.device.reset();
        self.rx_latch = None;
        self.log = Ghost(self.log@.push(SpiEvent::Reset));
    }

    /// Asks the slave for a finished frame.
    pub fn poll_frame(&mut self) -> (r: Option<FrameUpdate>)
        ensures
            final(self).latch() == old(self).latch(),
            final(self).spec_irq() == old(self).spec_irq(),
            final(self).has_callback() == old(self).has_callback(),
            final(self).events() == old(self).events().push(SpiEvent::FramePolled(r)),
            final(self).raised() == old(self).raised(),
    {
        let r = self.device.poll_frame();
        self.log = Ghost(self.log@.push(SpiEvent::FramePolled(r)));
        r
    }

    /// The slave device.
    pub fn device_mut(&mut self) -> &mut Box<dyn SpiSlave> {
        &mut self.device
    }

    /// Raises the bus's interrupt, when its number and a callback are set.
    fn fire_irq(&mut self)
        ensures
            final(self).raised() == old(self).raised_after(),
            final(self).latch() == old(self).latch(),
            final(self).spec_irq() == old(self).spec_irq(),
            final(self).has_callback() == old(self).has_callback(),
            final(self).events() == old(self).events(),
    {
        if let (Some(cb), Some(irq)) = (&self.irq_callback, self.irq_number) {
            cb.raise(irq);
            self.raised = Ghost(self.raised@.push(irq));
        }
    }
}

} // verus!
