use std::collections::BTreeMap;

use rsemu::bus::traits::SystemBus;
use rsemu::cpu::armv7em::{engine_memory_regions, page_base, BatchReport, CortexM4};
use rsemu::cpu::armv7m_external::{is_memory_backed, is_synced_page, premap_regions, write_hook_action, CortexM3External, WriteHookAction};

#[derive(Default)]
struct WordBus {
    bytes: BTreeMap<u64, u8>,
}

impl WordBus {
    fn put32(&mut self, addr: u64, value: u32) {
        for i in 0..4 {
            self.bytes.insert(addr + i, ((value >> (8 * i)) & 0xFF) as u8);
        }
    }

    fn get32(&self, addr: u64) -> u32 {
        (0..4).fold(0u32, |acc, i| acc | ((*self.bytes.get(&(addr + i)).unwrap_or(&0) as u32) << (8 * i)))
    }
}

impl SystemBus for WordBus {
    // The access relations of the trait are only read by the verifier; this bus claims none.
    fn read8_post(&self, _addr: u64, _r: Option<u8>, _after: Self) -> bool {
        false
    }

    fn write8_post(&self, _addr: u64, _value: u8, _ok: bool, _after: Self) -> bool {
        false
    }

    fn read16_post(&self, _addr: u64, _r: Option<u16>, _after: Self) -> bool {
        false
    }

    fn read32_post(&self, _addr: u64, _r: Option<u32>, _after: Self) -> bool {
        false
    }

    fn write16_post(&self, _addr: u64, _value: u16, _ok: bool, _after: Self) -> bool {
        false
    }

    fn write32_post(&self, _addr: u64, _value: u32, _ok: bool, _after: Self) -> bool {
        false
    }

    fn read8(&mut self, addr: u64) -> Result<u8, String> {
        self.bytes.get(&addr).copied().ok_or_else(|| format!("unmapped 0x{addr:08x}"))
    }

    fn write8(&mut self, addr: u64, value: u8) -> Result<(), String> {
        self.bytes.insert(addr, value);
        Ok(())
    }

    fn read16(&mut self, addr: u64) -> Result<u16, String> {
        Ok(self.read8(addr)? as u16 | ((self.read8(addr + 1)? as u16) << 8))
    }

    fn read32(&mut self, addr: u64) -> Result<u32, String> {
        let mut v = 0u32;
        for i in 0..4 {
            v |= (self.read8(addr + i)? as u32) << (8 * i);
        }
        Ok(v)
    }

    fn write16(&mut self, addr: u64, value: u16) -> Result<(), String> {
        self.write8(addr, (value & 0xFF) as u8)?;
        self.write8(addr + 1, (value >> 8) as u8)
    }

    fn write32(&mut self, addr: u64, value: u32) -> Result<(), String> {
        self.put32(addr, value);
        Ok(())
    }
}

fn reset_core(bus: &mut WordBus) -> CortexM4 {
    bus.put32(0x0800_0000, 0x2000_1000);
    bus.put32(0x0800_0004, 0x0800_0101);
    bus.put32(0x0800_0000 + 15 * 4, 0x0800_0201);
    let mut cpu = CortexM4::new();
    cpu.reset(bus, 0x0800_0000).unwrap();
    cpu
}

#[test]
fn m4_reset_reads_vector_table() {
    let mut bus = WordBus::default();
    let cpu = reset_core(&mut bus);
    assert_eq!(cpu.stack_pointer(), 0x2000_1000);
    assert_eq!(cpu.program_counter(), 0x0800_0100);
    assert_eq!(cpu.msp, 0x2000_1000);
    assert_eq!(cpu.psp, 0x2000_1000);
    assert_eq!(cpu.control, 2);
    assert!(cpu.thumb_state());
    assert!(!cpu.in_exception());
}

#[test]
fn m4_reset_fails_on_unmapped_vector_table() {
    let mut bus = WordBus::default();
    let mut cpu = CortexM4::new();
    assert!(cpu.reset(&mut bus, 0x0800_0000).is_err());
    assert_eq!(cpu.program_counter(), 0);
}

#[test]
fn m4_exception_entry_stacks_frame_on_process_stack() {
    let mut bus = WordBus::default();
    let mut cpu = reset_core(&mut bus);
    cpu.registers[0] = 0x11;
    cpu.registers[1] = 0x22;
    cpu.registers[12] = 0xCC;
    cpu.registers[14] = 0x0800_0155;
    cpu.registers[15] = 0x0800_0180;
    assert_eq!(cpu.enter_exception(&mut bus, 0x0800_0000, 15), Ok(true));
    assert_eq!(cpu.psp, 0x2000_0FE0);
    assert_eq!(cpu.registers[14], 0xFFFF_FFFD);
    assert_eq!(cpu.registers[13], 0x2000_1000);
    assert_eq!(cpu.program_counter(), 0x0800_0200);
    assert_eq!(cpu.current_exception, 15);
    assert_eq!(cpu.xpsr & 0x1FF, 15);
    assert_eq!(bus.get32(0x2000_0FE0), 0x11);
    assert_eq!(bus.get32(0x2000_0FE4), 0x22);
    assert_eq!(bus.get32(0x2000_0FF0), 0xCC);
    assert_eq!(bus.get32(0x2000_0FF4), 0x0800_0155);
    assert_eq!(bus.get32(0x2000_0FF8), 0x0800_0181);
}

#[test]
fn m4_exception_entry_and_return_round_trip() {
    let mut bus = WordBus::default();
    let mut cpu = reset_core(&mut bus);
    cpu.control = 0;
    cpu.registers[0] = 7;
    cpu.registers[3] = 9;
    cpu.registers[15] = 0x0800_0180;
    assert_eq!(cpu.enter_exception(&mut bus, 0x0800_0000, 15), Ok(true));
    assert_eq!(cpu.registers[14], 0xFFFF_FFF9);
    assert_eq!(cpu.msp, 0x2000_0FE0);
    assert_eq!(cpu.stack_pointer(), 0x2000_0FE0);
    cpu.registers[0] = 0;
    cpu.registers[3] = 0;
    cpu.registers[15] = 0xFFFF_FFF9;
    assert_eq!(cpu.resume_exception_return(&mut bus), Ok(true));
    assert_eq!(cpu.registers[0], 7);
    assert_eq!(cpu.registers[3], 9);
    assert_eq!(cpu.program_counter(), 0x0800_0180);
    assert_eq!(cpu.msp, 0x2000_1000);
    assert_eq!(cpu.stack_pointer(), 0x2000_1000);
    assert!(!cpu.in_exception());
    assert!(cpu.thumb_state());
}

#[test]
fn m4_exception_zero_and_empty_vector_are_not_taken() {
    let mut bus = WordBus::default();
    let mut cpu = reset_core(&mut bus);
    assert_eq!(cpu.enter_exception(&mut bus, 0x0800_0000, 0), Ok(false));
    bus.put32(0x0800_0000 + 11 * 4, 0);
    assert_eq!(cpu.enter_exception(&mut bus, 0x0800_0000, 11), Ok(false));
    assert!(cpu.enter_exception(&mut bus, 0x0800_0000, 12).is_err());
    assert_eq!(cpu.program_counter(), 0x0800_0100);
}

#[test]
fn m4_extended_frame_return_is_not_taken() {
    let mut bus = WordBus::default();
    let mut cpu = reset_core(&mut bus);
    cpu.registers[14] = 0xFFFF_FFE9;
    assert_eq!(cpu.exception_return(&mut bus), Ok(false));
    assert_eq!(cpu.program_counter(), 0x0800_0100);
}

#[test]
fn m4_sync_keeps_stack_pointers_outside_stack_memory() {
    let mut cpu = CortexM4::new();
    cpu.msp = 0x2000_0100;
    cpu.psp = 0x2000_0200;
    let regs = [5u32; 16];
    cpu.sync_from_engine(regs, Some(0x4000_0000), Some(0x1000_0800), 2, 1, 0, 0, 0x0100_0013);
    assert_eq!(cpu.registers(), &regs);
    assert_eq!(cpu.msp, 0x2000_0100);
    assert_eq!(cpu.psp, 0x1000_0800);
    assert_eq!(cpu.current_exception, 0x13);
    assert_eq!(cpu.batch_start(), 5 | 1);
}

fn report(engine_error: Option<&str>, left: u32) -> BatchReport {
    BatchReport {
        pending_exc_return: None,
        hook_error: None,
        engine_error: engine_error.map(|s| s.to_string()),
        budget_left: left,
    }
}

#[test]
fn m4_batch_counts_instructions_run() {
    let mut bus = WordBus::default();
    let mut cpu = reset_core(&mut bus);
    assert_eq!(cpu.finish_batch(&mut bus, 0x0800_0101, 100, report(None, 40)), (Ok(60), false));
    assert_eq!(cpu.finish_batch(&mut bus, 0x0800_0101, 100, report(None, 100)), (Ok(1), false));
}

#[test]
fn m4_batch_errors() {
    let mut bus = WordBus::default();
    let mut cpu = reset_core(&mut bus);
    let mut rep = report(None, 0);
    rep.hook_error = Some("bus fault".to_string());
    assert_eq!(cpu.finish_batch(&mut bus, 0x0800_0101, 10, rep), (Err("bus fault".to_string()), false));
    assert_eq!(
        cpu.finish_batch(&mut bus, 0x0800_0101, 10, report(Some("READ_UNMAPPED"), 0)),
        (Err("unicorn batch failed at pc=0x08000101: READ_UNMAPPED".to_string()), false)
    );
}

#[test]
fn m4_batch_recovers_from_exception_at_zero() {
    let mut bus = WordBus::default();
    let mut cpu = reset_core(&mut bus);
    cpu.psp = 0x4000_0000;
    assert_eq!(cpu.finish_batch(&mut bus, 1, 10, report(Some("EXCEPTION"), 0)), (Ok(1), false));
    assert_eq!(cpu.stack_pointer(), 0x2000_1000);
    assert_eq!(cpu.psp, 0x2000_1000);
    assert_eq!(cpu.program_counter(), 0x0800_d5c0);
    assert_eq!(cpu.control & 2, 2);
}

#[test]
fn m4_batch_takes_pending_exception_return() {
    let mut bus = WordBus::default();
    let mut cpu = reset_core(&mut bus);
    cpu.control = 0;
    cpu.registers[15] = 0x0800_0180;
    assert_eq!(cpu.enter_exception(&mut bus, 0x0800_0000, 15), Ok(true));
    let mut rep = report(None, 3);
    rep.pending_exc_return = Some(0xFFFF_FFF9);
    assert_eq!(cpu.finish_batch(&mut bus, 0x0800_0201, 10, rep), (Ok(7), false));
    assert_eq!(cpu.program_counter(), 0x0800_0180);
    assert!(!cpu.in_exception());
}

#[test]
fn m4_engine_pages_and_regions() {
    assert_eq!(page_base(0x2000_1234), 0x2000_1000);
    assert_eq!(page_base(0x0800_0000), 0x0800_0000);
    assert_eq!(
        engine_memory_regions(),
        vec![(0x0800_0000, 0x0810_0000), (0x2000_0000, 0x2004_0000), (0x1000_0000, 0x1001_0000)]
    );
}

#[test]
fn external_m3_state_and_batches() {
    let mut bus = WordBus::default();
    bus.put32(0x0800_0000, 0x2000_0800);
    bus.put32(0x0800_0004, 0x0800_0041);
    let mut cpu = CortexM3External::new();
    cpu.reset(&mut bus, 0x0800_0000).unwrap();
    assert_eq!((cpu.stack_pointer(), cpu.program_counter()), (0x2000_0800, 0x0800_0040));
    assert_eq!(cpu.engine_cpsr(), 0x20);
    assert_eq!(cpu.batch_start(), 0x0800_0041);
    assert!(!cpu.in_exception());
    cpu.sync_from_engine([3u32; 16], 0x8000_0020);
    assert_eq!(cpu.xpsr, 0x8100_0000);
    assert!(cpu.settle_batch(0x0800_0041, None, None, 1020).is_ok());
    assert_eq!(cpu.pending_steps, 3);
    assert!(cpu.take_pending_step());
    assert_eq!(cpu.pending_steps, 2);
    assert_eq!(
        cpu.settle_batch(0x0800_0041, None, Some("FETCH_UNMAPPED".to_string()), 0),
        Err("unicorn batch failed at pc=0x08000041: FETCH_UNMAPPED".to_string())
    );
    assert_eq!(cpu.settle_batch(1, Some("bus".to_string()), None, 0), Err("bus".to_string()));
}

#[test]
fn external_m3_memory_map() {
    assert!(is_memory_backed(0x2000_0010));
    assert!(!is_memory_backed(0x4001_0800));
    assert_eq!(write_hook_action(0x2000_1234), WriteHookAction::TrackPage(0x2000_1000));
    assert_eq!(write_hook_action(0x4001_080C), WriteHookAction::ForwardAndStop);
    assert_eq!(write_hook_action(0x0800_0000), WriteHookAction::Continue);
    assert!(is_synced_page(0x2000_1000));
    assert!(!is_synced_page(0x1000_0000));
    assert_eq!(premap_regions().len(), 4);
}
