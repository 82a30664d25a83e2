use vstd::prelude::*;

verus! {

/// Receiver of interrupt requests raised by buses and peripherals.
/// All interrupt-capable peripherals/buses use this to notify the NVIC.
pub trait IrqHandler: Send + Sync {
    fn raise(&self, irq: u8);
}

/// Interrupt callback type.
pub type IrqCallback = Box<dyn IrqHandler>;

/// Interrupt source: anything that can trigger an IRQ.
pub trait IrqSource {
    /// Set the interrupt callback.
    fn set_irq_callback(&mut self, cb: IrqCallback);
}

} // verus!
