//! UART bus controller: between the machine's register layer and a UART device.
use crate::bus::irq::IrqCallback;
use crate::bus::traits::UartDevice;
use vstd::prelude::*;

verus! {

/// What the bus passed to its device, in order.
pub enum UartEvent {
    /// A byte the firmware transmitted.
    Tx(u8),
    /// The device was asked for a received byte and gave this answer.
    RxPolled(Option<u8>),
    Reset,
}

/// UART bus controller. TX: the machine calls `on_dr_write` when firmware writes USART_DR;
/// RX: `on_dr_read` when firmware reads it.
pub struct UartBus {
    device: Box<dyn UartDevice>,
    irq_callback: Option<IrqCallback>,
    tx_irq: Option<u8>,
    rx_irq: Option<u8>,
    log: Ghost<Seq<UartEvent>>,
    raised: Ghost<Seq<u8>>,
}

impl UartBus {
    pub closed spec fn spec_tx_irq(&self) -> Option<u8> {
        self.tx_irq
    }

    pub closed spec fn spec_rx_irq(&self) -> Option<u8> {
        self.rx_irq
    }

    pub closed spec fn has_callback(&self) -> bool {
        self.irq_callback is Some
    }

    /// Everything the bus has passed to its device.
    pub closed spec fn events(&self) -> Seq<UartEvent> {
        self.log@
    }

    /// The interrupts the bus has raised.
    pub closed spec fn raised(&self) -> Seq<u8> {
        self.raised@
    }

    /// The interrupts after a request for interrupt `irq`: raised when it and a callback are
    /// set.
    pub open spec fn raised_after(&self, irq: Option<u8>) -> Seq<u8> {
        if self.has_callback() && irq is Some {
            self.raised().push(irq->0)
        } else {
            self.raised()
        }
    }

    pub fn new(device: Box<dyn UartDevice>) -> (r: Self)
        ensures
            r.spec_tx_irq() is None && r.spec_rx_irq() is None && !r.has_callback(),
            r.events().len() == 0,
            r.raised().len() == 0,
    {
        UartBus { device, irq_callback: None, tx_irq: None, rx_irq: None, log: Ghost(Seq::empty()), raised: Ghost(Seq::empty()) }
    }

    /// Sets the IRQ numbers and the shared callback.
    pub fn set_irq(&mut self, tx_irq: u8, rx_irq: u8, callback: IrqCallback)
        ensures
            final(self).spec_tx_irq() == Some(tx_irq),
            final(self).spec_rx_irq() == Some(rx_irq),
            final(self).has_callback(),
            final(self).events() == old(self).events(),
            final(self).raised() == old(self).raised(),
    {
        self.tx_irq = Some(tx_irq);
        self.rx_irq = Some(rx_irq);
        self.irq_callback = Some(callback);
    }

    /// Firmware wrote `byte` to USART_DR: the device transmits it and the TX interrupt fires.
    pub fn on_dr_write(&mut self, byte: u8)
        ensures
            final(self).spec_tx_irq() == old(self).spec_tx_irq(),
            final(self).spec_rx_irq() == old(self).spec_rx_irq(),
            final(self).has_callback() == old(self).has_callback(),
            final(self).events() == old(self).events().push(UartEvent::Tx(byte)),
            final(self).raised() == old(self).raised_after(old(self).spec_tx_irq()),
    {
        self.device.on_tx(byte);
        self.log = Ghost(self.log@.push(UartEvent::Tx(byte)));
        let irq = self.tx_irq;
        self.fire_irq(irq);
    }

    /// Firmware read USART_DR: the device's next byte, if it has one (the RX interrupt fires
    /// then).
    pub fn on_dr_read(&mut self) -> (r: Option<u8>)
        ensures
            final(self).spec_tx_irq() == old(self).spec_tx_irq(),
            final(self).spec_rx_irq() == old(self).spec_rx_irq(),
            final(self).has_callback() == old(self).has_callback(),
            final(self).events() == old(self).events().push(UartEvent::RxPolled(r)),
            final(self).raised() == if r is Some {
                old(self).raised_after(old(self).spec_rx_irq())
            } else {
                old(self).raised()
            },
    {
        let result = self.device.poll_rx();
        self.log = Ghost(self.log@.push(UartEvent::RxPolled(result)));
        if result.is_some() {
            let irq = self.rx_irq;
            self.fire_irq(irq);
        }
        result
    }

    /// Whether RX data is ready: the device cannot be asked without consuming its data, so
    /// this is always `false` and the machine reads through `on_dr_read`.
    pub fn has_rx_data(&mut self) -> (r: bool)
        ensures
            !r,
    {
        false
    }

    pub fn reset(&mut self)
        ensures
            final(self).spec_tx_irq() == old(self).spec_tx_irq(),
            final(self).spec_rx_irq() == old(self).spec_rx_irq(),
            final(self).has_callback() == old(self).has_callback(),
            final(self).events() == old(self).events().push(UartEvent::Reset),
            final(self).raised() == old(self).raised(),
    {
        self.device.reset();
        self.log = Ghost(self.log@.push(UartEvent::Reset));
    }

    /// Raises interrupt `irq`, when it and a callback are set.
    fn fire_irq(&mut self, irq: Option<u8>)
        ensures
            final(self).raised() == old(self).raised_after(irq),
            final(self).spec_tx_irq() == old(self).spec_tx_irq(),
            final(self).spec_rx_irq() == old(self).spec_rx_irq(),
            final(self).has_callback() == old(self).has_callback(),
            final(self).events() == old(self).events(),
    {
        if let (Some(cb), Some(n)) = (&self.irq_callback, irq) {
            cb.raise(n);
            self.raised = Ghost(self.raised@.push(n));
        }
    }
}

} // verus!
