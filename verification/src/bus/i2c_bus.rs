//! I2C bus controller: between the machine's register layer and an I2C slave device.
use crate::bus::irq::IrqCallback;
use crate::bus::traits::{FrameUpdate, I2cSlave};
use vstd::prelude::*;

verus! {

/// Phase of the I2C transaction.
#[derive(Debug, Clone, Copy, PartialEq, Eq, Structural)]
pub enum I2cPhase {
    Idle,
    AwaitAddress,
    MasterWrite,
    MasterRead,
}

/// What the bus passed to its slave, in order.
pub enum I2cEvent {
    /// An address byte (7-bit address, read flag) and whether the slave acknowledged it.
    Address(u8, bool, bool),
    Write(u8),
    /// A byte read from the slave.
    Read(u8),
    Stop,
    Reset,
    /// The slave was asked for a frame and gave this answer.
    FramePolled(Option<FrameUpdate>),
}

/// I2C bus controller. CR1 writes signal START (bit 8) and STOP (bit 9); after START the
/// first data byte is the address (7 bits and the read bit); then bytes are written to or
/// read from the slave.
pub struct I2cBus {
    device: Box<dyn I2cSlave>,
    phase: I2cPhase,
    irq_callback: Option<IrqCallback>,
    irq_number: Option<u8>,
    log: Ghost<Seq<I2cEvent>>,
    raised: Ghost<Seq<u8>>,
}

/// Phase after a CR1 write of `value`: START begins addressing, STOP (checked after START)
/// ends the transaction.
pub open spec fn phase_after_cr1(phase: I2cPhase, value: u32) -> I2cPhase {
    if value & 0x200 != 0 {
        I2cPhase::Idle
    } else if value & 0x100 != 0 {
        I2cPhase::AwaitAddress
    } else {
        phase
    }
}

impl I2cBus {
    pub closed spec fn spec_phase(&self) -> I2cPhase {
        self.phase
    }

    pub closed spec fn spec_irq(&self) -> Option<u8> {
        self.irq_number
    }

    pub closed spec fn has_callback(&self) -> bool {
        self.irq_callback is Some
    }

    /// Everything the bus has passed to its slave.
    pub closed spec fn events(&self) -> Seq<I2cEvent> {
        self.log@
    }

    /// The interrupts the bus has raised.
    pub closed spec fn raised(&self) -> Seq<u8> {
        self.raised@
    }

    /// The interrupts after one more interrupt request: the IRQ number is raised when it and a
    /// callback are set.
    pub open spec fn raised_after(&self) -> Seq<u8> {
        if self.has_callback() && self.spec_irq() is Some {
            self.raised().push(self.spec_irq()->0)
        } else {
            self.raised()
        }
    }

    /// A write of I2C_CR1 with `value` took `before` to `after`: START and STOP move the phase,
    /// and a STOP that ends a transaction is passed to the slave.
    pub open spec fn cr1_write_step(before: I2cBus, value: u32, after: I2cBus) -> bool {
        &&& after.spec_phase() == phase_after_cr1(before.spec_phase(), value)
        &&& after.spec_irq() == before.spec_irq()
        &&& after.has_callback() == before.has_callback()
        &&& after.events() == if value & 0x200 != 0 && (value & 0x100 != 0 || before.spec_phase() != I2cPhase::Idle) {
            before.events().push(I2cEvent::Stop)
        } else {
            before.events()
        }
        &&& after.raised() == before.raised()
    }

    /// A write of I2C_DR with `byte` took `before` to `after`: after START the byte is the
    /// address (the slave's acknowledgement decides the phase); while writing it goes to the
    /// slave and the interrupt is requested; otherwise nothing happens.
    pub open spec fn dr_write_step(before: I2cBus, byte: u8, after: I2cBus) -> bool {
        &&& after.spec_irq() == before.spec_irq()
        &&& after.has_callback() == before.has_callback()
        &&& before.spec_phase() == I2cPhase::AwaitAddress ==> {
            &&& after.events().len() == before.events().len() + 1
            &&& after.events().drop_last() == before.events()
            &&& after.events().last() matches I2cEvent::Address(a, rd, ack)
            &&& a == byte >> 1u8
            &&& rd == (byte & 1 != 0)
            &&& after.spec_phase() == (if !ack {
                I2cPhase::Idle
            } else if rd {
                I2cPhase::MasterRead
            } else {
                I2cPhase::MasterWrite
            })
            &&& after.raised() == before.raised()
        }
        &&& before.spec_phase() == I2cPhase::MasterWrite ==> after.events() == before.events().push(
            I2cEvent::Write(byte),
        ) && after.raised() == before.raised_after()
        &&& before.spec_phase() != I2cPhase::AwaitAddress && before.spec_phase() != I2cPhase::MasterWrite
            ==> after.events() == before.events() && after.raised() == before.raised()
        &&& before.spec_phase() != I2cPhase::AwaitAddress ==> after.spec_phase() == before.spec_phase()
    }

    pub fn new(device: Box<dyn I2cSlave>) -> (r: Self)
        ensures
            r.spec_phase() == I2cPhase::Idle,
            r.spec_irq() is None,
            !r.has_callback(),
            r.events().len() == 0,
            r.raised().len() == 0,
    {
        I2cBus { device, phase: I2cPhase::Idle, irq_callback: None, irq_number: None, log: Ghost(Seq::empty()), raised: Ghost(Seq::empty()) }
    }

    /// Sets the IRQ number and callback of this bus.
    pub fn set_irq(&mut self, irq_number: u8, callback: IrqCallback)
        ensures
            final(self).spec_irq() == Some(irq_number),
            final(self).spec_phase() == old(self).spec_phase(),
            final(self).has_callback(),
            final(self).events() == old(self).events(),
            final(self).raised() == old(self).raised(),
    {
        self.irq_number = Some(irq_number);
        self.irq_callback = Some(callback);
    }

    /// Firmware wrote I2C_CR1: START and STOP conditions (a STOP during a transaction is
    /// passed to the slave).
    pub fn on_cr1_write(&mut self, value: u32)
        ensures
            I2cBus::cr1_write_step(*old(self), value, *final(self)),
    {
        if (value & (1 << 8)) != 0 {
            self.phase = I2cPhase::AwaitAddress;
        }
        if (value & (1 << 9)) != 0 {
            if self.phase != I2cPhase::Idle {
                self.device.stop();
                self.log = Ghost(self.log@.push(I2cEvent::Stop));
            }
            self.phase = I2cPhase::Idle;
        }
        assert((1u32 << 8) == 0x100u32 && (1u32 << 9) == 0x200u32) by (bit_vector);
    }

    /// Firmware wrote I2C_DR: after START the byte addresses a slave (which acks or not);
    /// while writing it is passed to the slave; otherwise it is ignored.
    pub fn on_dr_write(&mut self, byte: u8)
        ensures
            I2cBus::dr_write_step(*old(self), byte, *final(self)),
    {
        match self.phase {
            I2cPhase::AwaitAddress => {
                let addr7 = byte >> 1;
                let read = (byte & 1) != 0;
                let ack = self.device.address(addr7, read);
                self.log = Ghost(self.log@.push(I2cEvent::Address(addr7, read, ack)));
                assert(self.log@.drop_last() =~= old(self).log@);
                if ack {
                    self.phase = if read { I2cPhase::MasterRead } else { I2cPhase::MasterWrite };
                } else {
                    self.phase = I2cPhase::Idle;
                }
            },
            I2cPhase::MasterWrite => {
                self.device.write_byte(byte);
                self.log = Ghost(self.log@.push(I2cEvent::Write(byte)));
                self.fire_irq();
            },
            _ => {},
        }
    }

    /// Firmware read I2C_DR: a byte from the slave while reading, 0 otherwise.
    pub fn on_dr_read(&mut self) -> (r: u8)
        ensures
            final(self).spec_phase() == old(self).spec_phase(),
            final(self).spec_irq() == old(self).spec_irq(),
            final(self).has_callback() == old(self).has_callback(),
            old(self).spec_phase() != I2cPhase::MasterRead ==> r == 0 && final(self).events() == old(self).events()
                && final(self).raised() == old(self).raised(),
            old(self).spec_phase() == I2cPhase::MasterRead ==> final(self).events() == old(self).events().push(
                I2cEvent::Read(r),
            ) && final(self).raised() == old(self).raised_after(),
    {
        if self.phase == I2cPhase::MasterRead {
            self.fire_irq();
            let b = self.device.read_byte();
            self.log = Ghost(self.log@.push(I2cEvent::Read(b)));
            b
        } else {
            0
        }
    }

    /// Asks the slave for a finished frame.
    pub fn poll_frame(&mut self) -> (r: Option<FrameUpdate>)
        ensures
            final(self).spec_phase() == old(self).spec_phase(),
            final(self).spec_irq() == old(self).spec_irq(),
            final(self).has_callback() == old(self).has_callback(),
            final(self).events() == old(self).events().push(I2cEvent::FramePolled(r)),
            final(self).raised() == old(self).raised(),
    {
        let r = self.device.poll_frame();
        self.log = Ghost(self.log@.push(I2cEvent::FramePolled(r)));
        r
    }

    /// The slave device.
    pub fn device_mut(&mut self) -> &mut Box<dyn I2cSlave> {
        &mut self.device
    }

    /// Resets the slave and the transaction.
    pub fn reset(&mut self)
        ensures
            final(self).spec_phase() == I2cPhase::Idle,
            final(self).spec_irq() == old(self).spec_irq(),
            final(self).has_callback() == old(self).has_callback(),
            final(self).events() == old(self).events().push(I2cEvent::Reset),
            final(self).raised() == old(self).raised(),
    {
        self.device.reset();
        self.log = Ghost(self.log@.push(I2cEvent::Reset));
        self.phase = I2cPhase::Idle;
    }

    /// Raises the bus's interrupt, when its number and a callback are set.
    fn fire_irq(&mut self)
        ensures
            final(self).raised() == old(self).raised_after(),
            final(self).spec_phase() == old(self).spec_phase(),
            final(self).spec_irq() == old(self).spec_irq(),
            final(self).has_callback() == old(self).has_callback(),
            final(self).events() == old(self).events(),
    {
        if let (Some(cb), Some(irq)) = (&self.irq_callback, self.irq_number) {
            cb.raise(irq);
            self.raised = Ghost(self.raised@.push(irq));
        }
    }
}

} // verus!
