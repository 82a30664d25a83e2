//! DMA controller: streams that move data between memory and peripheral registers.
use std::collections::HashMap;
use vstd::prelude::*;

verus! {

broadcast use vstd::std_specs::hash::group_hash_axioms;

/// DMA transfer direction.
#[derive(Debug, Clone, Copy, PartialEq, Eq, Structural)]
pub enum DmaDirection {
    PeripheralToMemory,
    MemoryToPeripheral,
    MemoryToMemory,
}

/// DMA data width.
#[derive(Debug, Clone, Copy, PartialEq, Eq, Structural)]
pub enum DmaDataWidth {
    Byte,
    HalfWord,
    Word,
}

/// Configuration of one DMA stream.
#[derive(Debug, Clone, Copy, PartialEq, Eq, Structural)]
pub struct DmaStreamConfig {
    pub channel: u8,
    pub direction: DmaDirection,
    pub peripheral_addr: u64,
    pub memory_addr: u64,
    /// Number of data items to transfer.
    pub ndt: u16,
    pub peripheral_width: DmaDataWidth,
    pub memory_width: DmaDataWidth,
    pub peripheral_increment: bool,
    pub memory_increment: bool,
    pub circular: bool,
    pub enabled: bool,
    pub transfer_complete_irq: Option<u8>,
}

/// The default configuration: channel 0, peripheral to memory, byte widths, memory
/// increment, disabled.
pub open spec fn default_config() -> DmaStreamConfig {
    DmaStreamConfig {
        channel: 0,
        direction: DmaDirection::PeripheralToMemory,
        peripheral_addr: 0,
        memory_addr: 0,
        ndt: 0,
        peripheral_width: DmaDataWidth::Byte,
        memory_width: DmaDataWidth::Byte,
        peripheral_increment: false,
        memory_increment: true,
        circular: false,
        enabled: false,
        transfer_complete_irq: None,
    }
}

impl Default for DmaStreamConfig {
    fn default() -> (r: Self)
        ensures
            r == default_config(),
    {
        DmaStreamConfig {
            channel: 0,
            direction: DmaDirection::PeripheralToMemory,
            peripheral_addr: 0,
            memory_addr: 0,
            ndt: 0,
            peripheral_width: DmaDataWidth::Byte,
            memory_width: DmaDataWidth::Byte,
            peripheral_increment: false,
            memory_increment: true,
            circular: false,
            enabled: false,
            transfer_complete_irq: None,
        }
    }
}

/// State of one stream: its configuration, items left and current addresses.
#[derive(Debug, Clone, Copy, PartialEq, Eq, Structural)]
pub struct DmaStreamState {
    pub config: DmaStreamConfig,
    pub remaining: u16,
    pub memory_addr_current: u64,
    pub peripheral_addr_current: u64,
}

/// One transfer the application is to carry out.
#[derive(Debug, Clone, Copy, PartialEq, Eq, Structural)]
pub struct DmaTransfer {
    pub stream_id: u8,
    pub direction: DmaDirection,
    pub memory_addr: u64,
    pub peripheral_addr: u64,
    pub byte_count: usize,
    pub transfer_complete: bool,
    pub irq: Option<u8>,
}

/// Bytes of a data item of width `w`.
pub open spec fn width_bytes(w: DmaDataWidth) -> u64 {
    match w {
        DmaDataWidth::Byte => 1,
        DmaDataWidth::HalfWord => 2,
        DmaDataWidth::Word => 4,
    }
}

/// A freshly configured (or re-enabled) stream: all items left, addresses at their starts.
pub open spec fn restarted(config: DmaStreamConfig) -> DmaStreamState {
    DmaStreamState {
        config,
        remaining: config.ndt,
        memory_addr_current: config.memory_addr,
        peripheral_addr_current: config.peripheral_addr,
    }
}

/// One item moved by stream `s`: the item count drops, the addresses advance where
/// configured, and a circular stream restarts once it is done.
pub open spec fn after_item(s: DmaStreamState) -> DmaStreamState {
    let c = s.config;
    let remaining = (s.remaining - 1) as u16;
    let mem = if c.memory_increment { s.memory_addr_current.wrapping_add(width_bytes(c.memory_width)) } else { s.memory_addr_current };
    let peri = if c.peripheral_increment {
        s.peripheral_addr_current.wrapping_add(width_bytes(c.peripheral_width))
    } else {
        s.peripheral_addr_current
    };
    if remaining == 0 && c.circular {
        restarted(c)
    } else {
        DmaStreamState { config: c, remaining, memory_addr_current: mem, peripheral_addr_current: peri }
    }
}

/// The transfer described for stream `id` in state `s`.
pub open spec fn transfer_of(id: u8, s: DmaStreamState) -> DmaTransfer {
    let done = s.remaining == 1;
    DmaTransfer {
        stream_id: id,
        direction: s.config.direction,
        memory_addr: s.memory_addr_current,
        peripheral_addr: s.peripheral_addr_current,
        byte_count: width_bytes(s.config.peripheral_width) as usize,
        transfer_complete: done,
        irq: if done { s.config.transfer_complete_irq } else { None },
    }
}

/// DMA controller: the streams by id. The application calls `on_peripheral_request` when a
/// peripheral asks for DMA and carries out the transfer it gets back.
pub struct DmaController {
    streams: HashMap<u8, DmaStreamState>,
}

impl DmaController {
    pub closed spec fn view_streams(&self) -> Map<u8, DmaStreamState> {
        self.streams@
    }

    pub fn new() -> (r: Self)
        ensures
            r.view_streams() == Map::<u8, DmaStreamState>::empty(),
    {
        DmaController { streams: HashMap::new() }
    }

    /// (Re)configures stream `stream_id`.
    pub fn configure_stream(&mut self, stream_id: u8, config: DmaStreamConfig)
        ensures
            final(self).view_streams() == old(self).view_streams().insert(stream_id, restarted(config)),
    {
        let state = DmaStreamState {
            config,
            remaining: config.ndt,
            memory_addr_current: config.memory_addr,
            peripheral_addr_current: config.peripheral_addr,
        };
        self.streams.insert(stream_id, state);
    }

    /// Enables or disables a configured stream; enabling restarts it.
    pub fn set_stream_enabled(&mut self, stream_id: u8, enabled: bool)
        ensures
            final(self).view_streams() == if old(self).view_streams().contains_key(stream_id) {
                let s = old(self).view_streams()[stream_id];
                let c = DmaStreamConfig { enabled, ..s.config };
                old(self).view_streams().insert(
                    stream_id,
                    if enabled { restarted(c) } else { DmaStreamState { config: c, ..s } },
                )
            } else {
                old(self).view_streams()
            },
    {
        let found = match self.streams.get(&stream_id) {
            Some(s) => Some(*s),
            None => None,
        };
        if let Some(mut stream) = found {
            stream.config.enabled = enabled;
            if enabled {
                stream.remaining = stream.config.ndt;
                stream.memory_addr_current = stream.config.memory_addr;
                stream.peripheral_addr_current = stream.config.peripheral_addr;
            }
            self.streams.insert(stream_id, stream);
        }
    }

    /// A peripheral asked stream `stream_id` for one item: the transfer to carry out, when the
    /// stream is enabled and has items left.
    pub fn on_peripheral_request(&mut self, stream_id: u8) -> (r: Option<DmaTransfer>)
        ensures
            ({
                let m = old(self).view_streams();
                if m.contains_key(stream_id) && m[stream_id].config.enabled && m[stream_id].remaining > 0 {
                    &&& r == Some(transfer_of(stream_id, m[stream_id]))
                    &&& final(self).view_streams() == m.insert(stream_id, after_item(m[stream_id]))
                } else {
                    r is None && final(self).view_streams() == m
                }
            }),
    {
        let mut stream = match self.streams.get(&stream_id) {
            Some(s) => *s,
            None => return None,
        };
        if !stream.config.enabled || stream.remaining == 0 {
            return None;
        }
        let direction = stream.config.direction;
        let mem_addr = stream.memory_addr_current;
        let peri_addr = stream.peripheral_addr_current;
        let byte_count: u64 = match stream.config.peripheral_width {
            DmaDataWidth::Byte => 1,
            DmaDataWidth::HalfWord => 2,
            DmaDataWidth::Word => 4,
        };
        stream.remaining = stream.remaining.saturating_sub(1);
        if stream.config.memory_increment {
            let inc: u64 = match stream.config.memory_width {
                DmaDataWidth::Byte => 1,
                DmaDataWidth::HalfWord => 2,
                DmaDataWidth::Word => 4,
            };
            stream.memory_addr_current = stream.memory_addr_current.wrapping_add(inc);
        }
        if stream.config.peripheral_increment {
            stream.peripheral_addr_current = stream.peripheral_addr_current.wrapping_add(byte_count);
        }
        let transfer_complete = stream.remaining == 0;
        let irq = if transfer_complete { stream.config.transfer_complete_irq } else { None };
        if transfer_complete && stream.config.circular {
            stream.remaining = stream.config.ndt;
            stream.memory_addr_current = stream.config.memory_addr;
            stream.peripheral_addr_current = stream.config.peripheral_addr;
        }
        self.streams.insert(stream_id, stream);
        Some(
            DmaTransfer {
                stream_id,
                direction,
                memory_addr: mem_addr,
                peripheral_addr: peri_addr,
                byte_count: byte_count as usize,
                transfer_complete,
                irq,
            },
        )
    }

    /// Whether stream `stream_id` is enabled with items left.
    pub fn is_stream_active(&self, stream_id: u8) -> (r: bool)
        ensures
            r == (self.view_streams().contains_key(stream_id) && self.view_streams()[stream_id].config.enabled
                && self.view_streams()[stream_id].remaining > 0),
    {
        match self.streams.get(&stream_id) {
            Some(s) => s.config.enabled && s.remaining > 0,
            None => false,
        }
    }

    /// Items left on stream `stream_id` (0 for an unknown stream).
    pub fn stream_remaining(&self, stream_id: u8) -> (r: u16)
        ensures
            r == if self.view_streams().contains_key(stream_id) { self.view_streams()[stream_id].remaining } else { 0 },
    {
        match self.streams.get(&stream_id) {
            Some(s) => s.remaining,
            None => 0,
        }
    }

    /// Forgets every stream.
    pub fn reset(&mut self)
        ensures
            final(self).view_streams() == Map::<u8, DmaStreamState>::empty(),
    {
        self.streams.clear();
    }

    /// Number of configured streams.
    pub fn stream_count(&self) -> (r: usize)
        ensures
            r == self.view_streams().len(),
    {
        self.streams.len()
    }
}

} // verus!
