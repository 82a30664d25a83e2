//! FSMC bus controller: memory-mapped parallel bus accesses routed to a device.
use crate::bus::access::AccessWidth;
use crate::bus::irq::IrqCallback;
use crate::bus::traits::{FrameUpdate, ParallelDevice};
use vstd::prelude::*;

verus! {

/// What the bus passed to its device, in order.
pub enum FsmcEvent {
    Write(u32, u32, AccessWidth),
    /// A read and the device's answer.
    Read(u32, AccessWidth, u32),
    Reset,
    /// The device was asked for a frame and gave this answer.
    FramePolled(Option<FrameUpdate>),
}

/// FSMC bus controller (the FSMC window of an STM32F407 is 0x6000_0000..0xA000_0000; the
/// low address bit often carries the LCD RS/DC signal).
pub struct FsmcBus {
    device: Box<dyn ParallelDevice>,
    irq_callback: Option<IrqCallback>,
    irq_number: Option<u8>,
    log: Ghost<Seq<FsmcEvent>>,
    raised: Ghost<Seq<u8>>,
}

impl FsmcBus {
    pub closed spec fn spec_irq(&self) -> Option<u8> {
        self.irq_number
    }

    pub closed spec fn has_callback(&self) -> bool {
        self.irq_callback is Some
    }

    /// Everything the bus has passed to its device.
    pub closed spec fn events(&self) -> Seq<FsmcEvent> {
        self.log@
    }

    /// The interrupts the bus has raised.
    pub closed spec fn raised(&self) -> Seq<u8> {
        self.raised@
    }

    /// The interrupts after one more interrupt request: the IRQ number is raised when it and a
    /// callback are set.
    pub open spec fn raised_after(&self) -> Seq<u8> {
        if self.has_callback() && self.spec_irq() is Some {
            self.raised().push(self.spec_irq()->0)
        } else {
            self.raised()
        }
    }

    pub fn new(device: Box<dyn ParallelDevice>) -> (r: Self)
        ensures
            r.spec_irq() is None,
            !r.has_callback(),
            r.events().len() == 0,
            r.raised().len() == 0,
    {
        FsmcBus { device, irq_callback: None, irq_number: None, log: Ghost(Seq::empty()), raised: Ghost(Seq::empty()) }
    }

    pub fn set_irq(&mut self, irq_number: u8, callback: IrqCallback)
        ensures
            final(self).spec_irq() == Some(irq_number),
            final(self).has_callback(),
            final(self).events() == old(self).events(),
            final(self).raised() == old(self).raised(),
    {
        self.irq_number = Some(irq_number);
        self.irq_callback = Some(callback);
    }

    /// A write of `data` at `addr` took `before` to `after`: the device received it and the
    /// interrupt was requested.
    pub open spec fn write_step(before: FsmcBus, addr: u32, data: u32, width: AccessWidth, after: FsmcBus) -> bool {
        &&& after.spec_irq() == before.spec_irq()
        &&& after.has_callback() == before.has_callback()
        &&& after.events() == before.events().push(FsmcEvent::Write(addr, data, width))
        &&& after.raised() == before.raised_after()
    }

    /// Firmware wrote the FSMC window: the device receives the write, then the interrupt fires.
    pub fn on_write(&mut self, addr: u32, data: u32, width: AccessWidth)
        ensures
            FsmcBus::write_step(*old(self), addr, data, width, *final(self)),
    {
        self.device.write(addr, data, width);
        self.log = Ghost(self.log@.push(FsmcEvent::Write(addr, data, width)));
        self.fire_irq();
    }

    /// Firmware read the FSMC window: the device answers.
    pub fn on_read(&mut self, addr: u32, width: AccessWidth) -> (r: u32)
        ensures
            final(self).spec_irq() == old(self).spec_irq(),
            final(self).has_callback() == old(self).has_callback(),
            final(self).events() == old(self).events().push(FsmcEvent::Read(addr, width, r)),
            final(self).raised() == old(self).raised(),
    {
        let r = self.device.read(addr, width);
        self.log = Ghost(self.log@.push(FsmcEvent::Read(addr, width, r)));
        r
    }

    pub fn reset(&mut self)
        ensures
            final(self).spec_irq() == old(self).spec_irq(),
            final(self).has_callback() == old(self).has_callback(),
            final(self).events() == old(self).events().push(FsmcEvent::Reset),
            final(self).raised() == old(self).raised(),
    {
        self.device.reset();
        self.log = Ghost(self.log@.push(FsmcEvent::Reset));
    }

    /// Asks the device for a finished frame.
    pub fn poll_frame(&mut self) -> (r: Option<FrameUpdate>)
        ensures
            final(self).spec_irq() == old(self).spec_irq(),
            final(self).has_callback() == old(self).has_callback(),
            final(self).events() == old(self).events().push(FsmcEvent::FramePolled(r)),
            final(self).raised() == old(self).raised(),
    {
        let r = self.device.poll_frame();
        self.log = Ghost(self.log@.push(FsmcEvent::FramePolled(r)));
        r
    }

    /// The device (for frame polling).
    pub fn device_mut(&mut self) -> &mut Box<dyn ParallelDevice> {
        &mut self.device
    }

    /// Raises the bus's interrupt, when its number and a callback are set.
    fn fire_irq(&mut self)
        ensures
            final(self).raised() == old(self).raised_after(),
            final(self).spec_irq() == old(self).spec_irq(),
            final(self).has_callback() == old(self).has_callback(),
            final(self).events() == old(self).events(),
    {
        if let (Some(cb), Some(irq)) = (&self.irq_callback, self.irq_number) {
            cb.raise(irq);
            self.raised = Ghost(self.raised@.push(irq));
        }
    }
}

} // verus!
