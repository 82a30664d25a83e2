//! Bus device traits — each bus type has its own trait reflecting its protocol.
use crate::bus::access::{AccessWidth, CanFrame};
use vstd::prelude::*;

verus! {

/// A display frame produced by a device: `width * height` packed pixels.
pub struct FrameUpdate {
    pub width: u16,
    pub height: u16,
    pub pixels: Vec<u32>,
}

/// The value an exec result carries, as an `Option`.
pub open spec fn ok_value<T>(r: Result<T, String>) -> Option<T> {
    match r {
        Ok(v) => Some(v),
        Err(_) => None,
    }
}

/// System bus (memory-mapped byte, half-word and word accesses).
///
/// Each access is described by a relation between the bus before it, its arguments,
/// its outcome (`None` for a failed read, `false` for a failed write) and the bus after it.
/// Reads may have side effects (status registers that clear on read), hence the
/// bus state after a read.
pub trait SystemBus: Sized {
    spec fn read8_post(&self, addr: u64, r: Option<u8>, after: Self) -> bool;

    spec fn write8_post(&self, addr: u64, value: u8, ok: bool, after: Self) -> bool;

    spec fn read16_post(&self, addr: u64, r: Option<u16>, after: Self) -> bool;

    spec fn read32_post(&self, addr: u64, r: Option<u32>, after: Self) -> bool;

    spec fn write16_post(&self, addr: u64, value: u16, ok: bool, after: Self) -> bool;

    spec fn write32_post(&self, addr: u64, value: u32, ok: bool, after: Self) -> bool;

    fn read8(&mut self, addr: u64) -> (r: Result<u8, String>)
        ensures
            old(self).read8_post(addr, ok_value(r), *final(self)),
    ;

    fn write8(&mut self, addr: u64, value: u8) -> (r: Result<(), String>)
        ensures
            old(self).write8_post(addr, value, r is Ok, *final(self)),
    ;

    fn read16(&mut self, addr: u64) -> (r: Result<u16, String>)
        requires
            addr < u64::MAX,
        ensures
            old(self).read16_post(addr, ok_value(r), *final(self)),
    ;

    fn read32(&mut self, addr: u64) -> (r: Result<u32, String>)
        requires
            addr < u64::MAX - 3,
        ensures
            old(self).read32_post(addr, ok_value(r), *final(self)),
    ;

    fn write16(&mut self, addr: u64, value: u16) -> (r: Result<(), String>)
        requires
            addr < u64::MAX,
        ensures
            old(self).write16_post(addr, value, r is Ok, *final(self)),
    ;

    fn write32(&mut self, addr: u64, value: u32) -> (r: Result<(), String>)
        requires
            addr < u64::MAX - 3,
        ensures
            old(self).write32_post(addr, value, r is Ok, *final(self)),
    ;

}

/// The word accesses `ops` (address, value) all succeeded in order, from `b0` to `bn`.
/// For stores the value is the one written, for loads the one read.
pub open spec fn word_accesses<B: SystemBus>(
    b0: B,
    ops: Seq<(u64, u32)>,
    is_load: bool,
    bn: B,
) -> bool
    decreases ops.len(),
{
    if ops.len() == 0 {
        bn == b0
    } else {
        exists|mid: B|
            #![trigger word_access(mid, ops.last(), is_load, true, bn)]
            word_accesses(b0, ops.drop_last(), is_load, mid) && word_access(
                mid,
                ops.last(),
                is_load,
                true,
                bn,
            )
    }
}

/// One word access; `ok` tells whether it succeeded.
pub open spec fn word_access<B: SystemBus>(
    b: B,
    op: (u64, u32),
    is_load: bool,
    ok: bool,
    after: B,
) -> bool {
    if is_load {
        b.read32_post(op.0, if ok { Some(op.1) } else { None }, after)
    } else {
        b.write32_post(op.0, op.1, ok, after)
    }
}

/// The accesses `done` succeeded and then the access at `failed` failed.
pub open spec fn word_accesses_fail<B: SystemBus>(
    b0: B,
    done: Seq<(u64, u32)>,
    failed: (u64, u32),
    is_load: bool,
    bn: B,
) -> bool {
    exists|mid: B|
        #![trigger word_access(mid, failed, is_load, false, bn)]
        word_accesses(b0, done, is_load, mid) && word_access(mid, failed, is_load, false, bn)
}

pub proof fn lemma_word_accesses_extend<B: SystemBus>(
    b0: B,
    ops: Seq<(u64, u32)>,
    is_load: bool,
    mid: B,
    op: (u64, u32),
    bn: B,
)
    requires
        word_accesses(b0, ops, is_load, mid),
        word_access(mid, op, is_load, true, bn),
    ensures
        word_accesses(b0, ops.push(op), is_load, bn),
{
    let s = ops.push(op);
    assert(s.drop_last() =~= ops);
    assert(s.last() == op);
    assert(exists|m: B| word_accesses(b0, s.drop_last(), is_load, m) && word_access(m, s.last(), is_load, true, bn));
    assert(s.len() > 0);
    assert(word_accesses(b0, s, is_load, bn));
}

/// One byte access at `addr`: a read that gave `v` (or failed), or a write of `v`.
pub open spec fn byte_access<B: SystemBus>(b: B, addr: u64, v: u8, is_read: bool, ok: bool, after: B) -> bool {
    if is_read {
        b.read8_post(addr, if ok { Some(v) } else { None }, after)
    } else {
        b.write8_post(addr, v, ok, after)
    }
}

/// The byte accesses of `vals` at `addr`, `addr + 1`, ... all succeeded in order, from `b0`
/// to `bn` (the bytes read, or the bytes written).
pub open spec fn byte_accesses<B: SystemBus>(b0: B, addr: u64, vals: Seq<u8>, is_read: bool, bn: B) -> bool
    decreases vals.len(),
{
    if vals.len() == 0 {
        bn == b0
    } else {
        exists|mid: B|
            #![trigger byte_access(mid, (addr + (vals.len() - 1)) as u64, vals.last(), is_read, true, bn)]
            byte_accesses(b0, addr, vals.drop_last(), is_read, mid) && byte_access(
                mid,
                (addr + (vals.len() - 1)) as u64,
                vals.last(),
                is_read,
                true,
                bn,
            )
    }
}

/// The accesses of `done` succeeded, then the next one (of `v`) failed.
pub open spec fn byte_accesses_fail<B: SystemBus>(b0: B, addr: u64, done: Seq<u8>, v: u8, is_read: bool, bn: B) -> bool {
    exists|mid: B|
        #![trigger byte_access(mid, (addr + done.len()) as u64, v, is_read, false, bn)]
        byte_accesses(b0, addr, done, is_read, mid) && byte_access(mid, (addr + done.len()) as u64, v, is_read, false, bn)
}

pub proof fn lemma_byte_accesses_extend<B: SystemBus>(b0: B, addr: u64, vals: Seq<u8>, is_read: bool, mid: B, v: u8, bn: B)
    requires
        byte_accesses(b0, addr, vals, is_read, mid),
        byte_access(mid, (addr + vals.len()) as u64, v, is_read, true, bn),
    ensures
        byte_accesses(b0, addr, vals.push(v), is_read, bn),
{
    let s = vals.push(v);
    assert(s.drop_last() =~= vals);
    assert(s.last() == v);
    assert(byte_access(mid, (addr + (s.len() - 1)) as u64, s.last(), is_read, true, bn));
}

/// Reads `buf.len()` consecutive bytes starting at `addr` into `buf`; on failure the bytes
/// before the failing one were read.
pub fn read_block<B: SystemBus>(bus: &mut B, addr: u64, buf: &mut [u8]) -> (r: Result<(), String>)
    requires
        addr + old(buf)@.len() <= u64::MAX,
    ensures
        final(buf)@.len() == old(buf)@.len(),
        r is Ok ==> byte_accesses(*old(bus), addr, final(buf)@, true, *final(bus)),
        r is Err ==> exists|k: int|
            0 <= k < old(buf)@.len() && #[trigger] byte_accesses_fail(*old(bus), addr, final(buf)@.take(k), 0u8, true, *final(bus)),
{
    let ghost b0 = *bus;
    let n = buf.len();
    let mut i: usize = 0;
    while i < n
        invariant
            n == buf@.len(),
            n == old(buf)@.len(),
            i <= n,
            addr + n <= u64::MAX,
            b0 == *old(bus),
            byte_accesses(b0, addr, buf@.take(i as int), true, *bus),
        decreases n - i,
    {
        let ghost mid = *bus;
        let ghost done = buf@.take(i as int);
        match bus.read8(addr + i as u64) {
            Ok(byte) => {
                proof {
                    lemma_byte_accesses_extend(b0, addr, done, true, mid, byte, *bus);
                }
                buf[i] = byte;
                assert(buf@.take(i + 1) =~= done.push(byte));
                i = i + 1;
            },
            Err(e) => {
                assert(buf@.take(i as int) == done);
                assert(byte_access(mid, (addr + done.len()) as u64, 0u8, true, false, *bus));
                assert(byte_accesses_fail(b0, addr, buf@.take(i as int), 0u8, true, *bus));
                return Err(e);
            },
        }
    }
    assert(buf@.take(n as int) =~= buf@);
    Ok(())
}

/// Writes the bytes of `buf` to consecutive addresses starting at `addr`; on failure the
/// bytes before the failing one were written.
pub fn write_block<B: SystemBus>(bus: &mut B, addr: u64, buf: &[u8]) -> (r: Result<(), String>)
    requires
        addr + buf@.len() <= u64::MAX,
    ensures
        r is Ok ==> byte_accesses(*old(bus), addr, buf@, false, *final(bus)),
        r is Err ==> exists|k: int|
            0 <= k < buf@.len() && #[trigger] byte_accesses_fail(*old(bus), addr, buf@.take(k), buf@[k], false, *final(bus)),
{
    let ghost b0 = *bus;
    let n = buf.len();
    let mut i: usize = 0;
    while i < n
        invariant
            n == buf@.len(),
            i <= n,
            addr + n <= u64::MAX,
            b0 == *old(bus),
            byte_accesses(b0, addr, buf@.take(i as int), false, *bus),
        decreases n - i,
    {
        let ghost mid = *bus;
        let ghost done = buf@.take(i as int);
        match bus.write8(addr + i as u64, buf[i]) {
            Ok(()) => {
                proof {
                    lemma_byte_accesses_extend(b0, addr, done, false, mid, buf@[i as int], *bus);
                }
                assert(buf@.take(i + 1) =~= done.push(buf@[i as int]));
                i = i + 1;
            },
            Err(e) => {
                assert(byte_access(mid, (addr + done.len()) as u64, buf@[i as int], false, false, *bus));
                assert(byte_accesses_fail(b0, addr, buf@.take(i as int), buf@[i as int], false, *bus));
                return Err(e);
            },
        }
    }
    assert(buf@.take(n as int) =~= buf@);
    Ok(())
}

/// SPI slave device — reflects full-duplex transfer timing.
pub trait SpiSlave: Send {
    /// SPI transfer: master sends `mosi`, slave returns `miso` synchronously.
    fn transfer(&mut self, mosi: u8) -> u8;

    /// CS (chip select) line changed.
    fn chip_select(&mut self, active: bool);

    /// Device reset.
    fn reset(&mut self);

    /// A finished frame, if the device has one ready.
    fn poll_frame(&mut self) -> Option<FrameUpdate> {
        None
    }

    /// A control line wired to this device (e.g. DC) changed level.
    fn gpio_pin_changed(&mut self, port: char, pin: u8, high: bool) {
    }
}

/// I2C slave device — reflects START / address / read-write / STOP timing.
pub trait I2cSlave: Send {
    /// After START, bus sends 7-bit address + R/W direction.
    /// Return `true` to ACK (address matched).
    fn address(&mut self, addr7: u8, read: bool) -> bool;

    /// Master write mode: one byte received from bus.
    fn write_byte(&mut self, data: u8);

    /// Master read mode: device provides one byte to bus.
    fn read_byte(&mut self) -> u8;

    /// STOP condition.
    fn stop(&mut self);

    /// Device reset.
    fn reset(&mut self);

    /// A finished frame, if the device has one ready.
    fn poll_frame(&mut self) -> Option<FrameUpdate> {
        None
    }
}

/// UART device — bidirectional, asynchronous.
pub trait UartDevice: Send {
    /// MCU TX: firmware wrote a byte to DR.
    fn on_tx(&mut self, byte: u8);

    /// MCU RX: firmware reads DR. Device returns a byte from its internal buffer,
    /// or `None` if empty.
    fn poll_rx(&mut self) -> Option<u8>;

    /// Device reset.
    fn reset(&mut self);
}

/// Parallel bus device (FSMC / memory-mapped LCD).
pub trait ParallelDevice: Send {
    fn write(&mut self, addr: u32, data: u32, width: AccessWidth);

    fn read(&mut self, addr: u32, width: AccessWidth) -> u32;

    fn reset(&mut self);

    /// A finished frame, if the device has one ready.
    fn poll_frame(&mut self) -> Option<FrameUpdate> {
        None
    }
}

/// GPIO pin-change listener (for DC/RS control lines, LEDs, buttons, etc.).
pub trait GpioListener: Send {
    fn pin_changed(&mut self, port: char, pin: u8, high: bool);
}

/// Analog signal source (ADC input).
pub trait AnalogSource: Send {
    /// Sample a channel, return 0-4095 (12-bit).
    fn sample(&mut self, channel: u8) -> u16;
}

/// Analog signal sink (DAC output).
pub trait AnalogSink: Send {
    /// DAC output on a channel.
    fn output(&mut self, channel: u8, value: u16);
}

/// CAN node (stub).
pub trait CanNode: Send {
    fn receive_frame(&mut self, frame: &CanFrame);

    fn poll_tx(&mut self) -> Option<CanFrame>;
}

/// USB device (stub).
pub trait UsbDevice: Send {
    fn setup_packet(&mut self, pkt: &[u8]);

    fn data_in(&mut self, endpoint: u8, data: &[u8]);

    fn poll_data_out(&mut self, endpoint: u8) -> Option<Vec<u8>>;
}

} // verus!
