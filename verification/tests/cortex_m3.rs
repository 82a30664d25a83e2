use std::collections::BTreeMap;

use rsemu::bus::traits::SystemBus;
use rsemu::cpu::armv7m_legacy::CortexM3;
use rsemu::cpu::{ArchitectureId, CpuCore};
use rsemu::execution::StepBatchController;
use rsemu::machine::Machine;
use rsemu::memory::FirmwareImage;
use rsemu::target::{CpuType, MemoryRegion, MemoryRegionKind, TargetSpec};

fn make_target() -> TargetSpec {
    TargetSpec {
        name: "test-target".to_string(),
        architecture: ArchitectureId::ArmV7M,
        cpu_type: CpuType::CortexM3,
        vector_table_base: 0x0800_0000,
        core_clock_hz: 8_000_000,
        hsi_hz: 8_000_000,
        has_pllcfgr: false,
        systick_reload_divider: 1024,
        memory_map: vec![
            MemoryRegion {
                name: "flash".to_string(),
                range: 0x0800_0000..0x0800_0100,
                kind: MemoryRegionKind::Flash,
            },
            MemoryRegion {
                name: "ram".to_string(),
                range: 0x2000_0000..0x2000_0100,
                kind: MemoryRegionKind::Ram,
            },
        ],
        peripherals: vec![],
    }
}

#[derive(Default)]
struct TestBus {
    bytes: BTreeMap<u64, u8>,
}

impl TestBus {
    fn load(&mut self, base: u64, data: &[u8]) {
        for (index, byte) in data.iter().enumerate() {
            self.bytes.insert(base + index as u64, *byte);
        }
    }
}

impl SystemBus for TestBus {
    // The access relations of the trait are only read by the verifier; this bus claims none.
    fn read8_post(&self, _addr: u64, _r: Option<u8>, _after: Self) -> bool {
        false
    }

    fn write8_post(&self, _addr: u64, _value: u8, _ok: bool, _after: Self) -> bool {
        false
    }

    fn read16_post(&self, _addr: u64, _r: Option<u16>, _after: Self) -> bool {
        false
    }

    fn read32_post(&self, _addr: u64, _r: Option<u32>, _after: Self) -> bool {
        false
    }

    fn write16_post(&self, _addr: u64, _value: u16, _ok: bool, _after: Self) -> bool {
        false
    }

    fn write32_post(&self, _addr: u64, _value: u32, _ok: bool, _after: Self) -> bool {
        false
    }

    fn read8(&mut self, addr: u64) -> Result<u8, String> {
        self.bytes
            .get(&addr)
            .copied()
            .ok_or_else(|| format!("read from unmapped address 0x{addr:08x}"))
    }

    fn write8(&mut self, addr: u64, value: u8) -> Result<(), String> {
        self.bytes.insert(addr, value);
        Ok(())
    }

    fn read16(&mut self, addr: u64) -> Result<u16, String> {
        let lo = self.read8(addr)? as u16;
        let hi = self.read8(addr + 1)? as u16;
        Ok(lo | (hi << 8))
    }

    fn read32(&mut self, addr: u64) -> Result<u32, String> {
        let b0 = self.read8(addr)? as u32;
        let b1 = self.read8(addr + 1)? as u32;
        let b2 = self.read8(addr + 2)? as u32;
        let b3 = self.read8(addr + 3)? as u32;
        Ok(b0 | (b1 << 8) | (b2 << 16) | (b3 << 24))
    }

    fn write16(&mut self, addr: u64, value: u16) -> Result<(), String> {
        self.write8(addr, (value & 0xFF) as u8)?;
        self.write8(addr + 1, (value >> 8) as u8)
    }

    fn write32(&mut self, addr: u64, value: u32) -> Result<(), String> {
        self.write8(addr, (value & 0xFF) as u8)?;
        self.write8(addr + 1, ((value >> 8) & 0xFF) as u8)?;
        self.write8(addr + 2, ((value >> 16) & 0xFF) as u8)?;
        self.write8(addr + 3, ((value >> 24) & 0xFF) as u8)
    }
}

#[test]
fn cortex_m3_reset_loads_sp_and_pc_from_vector_table() {
    let bytes = [
        0x00, 0x10, 0x00, 0x20, // SP = 0x20001000
        0x09, 0x00, 0x00, 0x08, // Reset = 0x08000009
        0x00, 0xBF, // NOP
    ];
    let firmware = FirmwareImage::from_bin(0x0800_0000, &bytes);
    let mut machine = Machine::new(CortexM3::new(), make_target());
    machine
        .load_firmware(&firmware)
        .expect("firmware should load");
    machine.reset_cpu().expect("cpu reset should work");

    assert_eq!(machine.cpu().stack_pointer(), 0x2000_1000);
    assert_eq!(machine.cpu().program_counter(), 0x0800_0008);
}

#[test]
fn cortex_m3_branch_instruction_loops_to_self() {
    let bytes = [
        0x00, 0x10, 0x00, 0x20, 0x09, 0x00, 0x00, 0x08, 0xFE, 0xE7, // b .
    ];
    let firmware = FirmwareImage::from_bin(0x0800_0000, &bytes);
    let mut machine = Machine::new(CortexM3::new(), make_target());
    machine
        .load_firmware(&firmware)
        .expect("firmware should load");
    machine.reset_cpu().expect("cpu reset should work");
    machine.step_cpu().expect("branch should execute");

    assert_eq!(machine.cpu().program_counter(), 0x0800_0008);
}

#[test]
fn cortex_m3_executes_ldr_movs_and_str_into_ram() {
    let bytes = [
        0x00, 0x10, 0x00, 0x20, 0x09, 0x00, 0x00, 0x08, 0x02,
        0x48, // ldr r0, [pc, #8] => 0x20000000
        0x05, 0x21, // movs r1, #5
        0x01, 0x60, // str r1, [r0]
        0xFE, 0xE7, // b .
        0x00, 0xBF, // nop
        0x00, 0xBF, // nop
        0x00, 0x00, 0x00, 0x20,
    ];
    let firmware = FirmwareImage::from_bin(0x0800_0000, &bytes);
    let mut machine = Machine::new(CortexM3::new(), make_target());
    machine
        .load_firmware(&firmware)
        .expect("firmware should load");
    machine.reset_cpu().expect("cpu reset should work");

    machine.step_cpu().expect("ldr should execute");
    machine.step_cpu().expect("movs should execute");
    machine.step_cpu().expect("str should execute");

    assert_eq!(machine.read8(0x2000_0000).expect("ram read"), 0x05);
}

#[test]
fn cortex_m3_executes_bx_to_thumb_target() {
    let bytes = [
        0x00, 0x10, 0x00, 0x20, 0x09, 0x00, 0x00, 0x08, 0x01,
        0x4A, // ldr r2, [pc, #4] => 0x08000015
        0x10, 0x47, // bx r2
        0x00, 0xBF, // nop
        0x00, 0xBF, // nop
        0x15, 0x00, 0x00, 0x08, 0xFE, 0xE7, // b .
    ];
    let firmware = FirmwareImage::from_bin(0x0800_0000, &bytes);
    let mut machine = Machine::new(CortexM3::new(), make_target());
    machine
        .load_firmware(&firmware)
        .expect("firmware should load");
    machine.reset_cpu().expect("cpu reset should work");

    machine.step_cpu().expect("ldr should execute");
    machine.step_cpu().expect("bx should execute");

    assert_eq!(machine.cpu().program_counter(), 0x0800_0014);
}

#[test]
fn cortex_m3_executes_cmp_and_beq() {
    let bytes = [
        0x00, 0x10, 0x00, 0x20, 0x09, 0x00, 0x00, 0x08, 0x00, 0x20, // movs r0, #0
        0x01, 0x21, // movs r1, #1
        0x80, 0x42, // cmp r0, r0
        0x01, 0xD0, // beq +2
        0x01, 0x21, // movs r1, #1 (skipped)
        0xFE, 0xE7, // b .
    ];
    let firmware = FirmwareImage::from_bin(0x0800_0000, &bytes);
    let mut machine = Machine::new(CortexM3::new(), make_target());
    machine
        .load_firmware(&firmware)
        .expect("firmware should load");
    machine.reset_cpu().expect("cpu reset should work");

    machine.step_cpu().expect("movs r0 should execute");
    machine.step_cpu().expect("movs r1 should execute");
    machine.step_cpu().expect("cmp should execute");
    machine.step_cpu().expect("beq should execute");

    assert_eq!(machine.cpu().program_counter(), 0x0800_0014);
}

#[test]
fn cortex_m3_executes_stmia_and_ldmia() {
    let mut cpu = CortexM3::new();
    let mut bus = TestBus::default();
    bus.load(0x0800_0000, &[0x06, 0xC0, 0x06, 0xC8]); // stmia r0!, {r1,r2}; ldmia r0!, {r1,r2}

    cpu.registers[0] = 0x2000_0000;
    cpu.registers[1] = 0x1122_3344;
    cpu.registers[2] = 0x5566_7788;
    cpu.registers[15] = 0x0800_0000;

    cpu.step(&mut bus).expect("stmia should execute");
    assert_eq!(cpu.registers[0], 0x2000_0008);
    assert_eq!(bus.read32(0x2000_0000).expect("memory read"), 0x1122_3344);
    assert_eq!(bus.read32(0x2000_0004).expect("memory read"), 0x5566_7788);

    cpu.registers[1] = 0;
    cpu.registers[2] = 0;
    cpu.registers[0] = 0x2000_0000;
    cpu.step(&mut bus).expect("ldmia should execute");
    assert_eq!(cpu.registers[0], 0x2000_0008);
    assert_eq!(cpu.registers[1], 0x1122_3344);
    assert_eq!(cpu.registers[2], 0x5566_7788);
}

#[test]
fn cortex_m3_executes_push_and_pop() {
    let mut cpu = CortexM3::new();
    let mut bus = TestBus::default();
    bus.load(0x0800_0000, &[0x03, 0xB5, 0x03, 0xBC]); // push {r0,r1,lr}; pop {r0,r1}

    cpu.registers[0] = 0xAABB_CCDD;
    cpu.registers[1] = 0x1122_3344;
    cpu.registers[14] = 0x0800_1235;
    cpu.registers[13] = 0x2000_0010;
    cpu.registers[15] = 0x0800_0000;

    cpu.step(&mut bus).expect("push should execute");
    assert_eq!(cpu.registers[13], 0x2000_0004);
    assert_eq!(bus.read32(0x2000_0004).expect("stack read"), 0xAABB_CCDD);
    assert_eq!(bus.read32(0x2000_0008).expect("stack read"), 0x1122_3344);
    assert_eq!(bus.read32(0x2000_000C).expect("stack read"), 0x0800_1235);

    cpu.registers[0] = 0;
    cpu.registers[1] = 0;
    cpu.step(&mut bus).expect("pop should execute");
    assert_eq!(cpu.registers[13], 0x2000_000C);
    assert_eq!(cpu.registers[0], 0xAABB_CCDD);
    assert_eq!(cpu.registers[1], 0x1122_3344);
}

#[test]
fn cortex_m3_executes_bl_and_sets_lr() {
    let mut cpu = CortexM3::new();
    let mut bus = TestBus::default();
    bus.load(0x0800_0130, &[0x02, 0xF0, 0x0A, 0xF8]); // bl 0x08000148
    cpu.registers[15] = 0x0800_0130;

    cpu.step(&mut bus).expect("bl should execute");

    assert_eq!(cpu.program_counter(), 0x0800_2148);
    assert_eq!(cpu.registers[14], 0x0800_0135);
}

#[test]
fn cortex_m3_executes_thumb_alu_and_extend_ops() {
    let mut cpu = CortexM3::new();
    let mut bus = TestBus::default();
    bus.load(
        0x0800_0000,
        &[
            0x08, 0x40, 0x08, 0x43, 0x48, 0x43, 0x08, 0x42, 0xC8, 0xB2, 0x88, 0xB2,
        ],
    );

    cpu.registers[0] = 0x00FF_00F0;
    cpu.registers[1] = 0x0F0F_000F;
    cpu.registers[15] = 0x0800_0000;

    cpu.step(&mut bus).expect("ands should execute");
    assert_eq!(cpu.registers[0], 0x000F_0000);

    cpu.step(&mut bus).expect("orrs should execute");
    assert_eq!(cpu.registers[0], 0x0F0F_000F);

    cpu.registers[1] = 3;
    cpu.step(&mut bus).expect("muls should execute");
    assert_eq!(cpu.registers[0], 0x2D2D_002D);

    cpu.step(&mut bus).expect("tst should execute");
    assert_eq!(cpu.program_counter(), 0x0800_0008);

    cpu.registers[1] = 0x1234_56AB;
    cpu.step(&mut bus).expect("uxtb should execute");
    assert_eq!(cpu.registers[0], 0xAB);

    cpu.registers[1] = 0x1234_56AB;
    cpu.step(&mut bus).expect("uxth should execute");
    assert_eq!(cpu.registers[0], 0x56AB);
}

#[test]
fn cortex_m3_executes_clz_t1() {
    let mut cpu = CortexM3::new();
    let mut bus = TestBus::default();
    // clz r0, r0
    bus.load(0x0800_0000, &[0xB0, 0xFA, 0x80, 0xF0]);

    cpu.registers[0] = 0x0000_1000;
    cpu.registers[15] = 0x0800_0000;

    cpu.step(&mut bus).expect("clz should execute");
    assert_eq!(cpu.registers[0], 19);
    assert_eq!(cpu.program_counter(), 0x0800_0004);
}

#[test]
fn cortex_m3_executes_mls_with_correct_register_fields() {
    let mut cpu = CortexM3::new();
    let mut bus = TestBus::default();
    // mls r0, r5, r10, r3
    bus.load(0x0800_0000, &[0x05, 0xFB, 0x1A, 0x30]);

    cpu.registers[5] = 10;
    cpu.registers[10] = 10;
    cpu.registers[3] = 103;
    cpu.registers[15] = 0x0800_0000;

    cpu.step(&mut bus).expect("mls should execute");
    assert_eq!(cpu.registers[0], 3);
    assert_eq!(cpu.program_counter(), 0x0800_0004);
}

#[test]
fn cortex_m3_executes_mul_w_with_ra_pc_encoding() {
    let mut cpu = CortexM3::new();
    let mut bus = TestBus::default();
    // mul.w r6, r4, r3  (encoding uses Ra=R15 sentinel)
    bus.load(0x0800_0000, &[0x04, 0xFB, 0x03, 0xF6]);

    cpu.registers[4] = 40;
    cpu.registers[3] = 40;
    cpu.registers[6] = 0;
    cpu.registers[15] = 0x0800_0000;

    cpu.step(&mut bus).expect("mul.w should execute");
    assert_eq!(cpu.registers[6], 1600);
    assert_eq!(cpu.program_counter(), 0x0800_0004);
}

#[test]
fn cortex_m3_executes_umull_with_correct_register_fields() {
    let mut cpu = CortexM3::new();
    let mut bus = TestBus::default();
    // umull r0, r1, r0, r1
    bus.load(0x0800_0000, &[0xA0, 0xFB, 0x01, 0x01]);

    cpu.registers[0] = 8;
    cpu.registers[1] = 1_000_000;
    cpu.registers[15] = 0x0800_0000;

    cpu.step(&mut bus).expect("umull should execute");
    assert_eq!(cpu.registers[0], 8_000_000);
    assert_eq!(cpu.registers[1], 0);
    assert_eq!(cpu.program_counter(), 0x0800_0004);
}

#[test]
fn cortex_m3_executes_ldrsb_imm_sub_t2() {
    let mut cpu = CortexM3::new();
    let mut bus = TestBus::default();
    // ldrsb.w r0, [r7, #-13]
    bus.load(0x0800_0000, &[0x17, 0xF9, 0x0D, 0x0C]);
    bus.load(0x2000_0003, &[0x80]);

    cpu.registers[7] = 0x2000_0010;
    cpu.registers[15] = 0x0800_0000;

    cpu.step(&mut bus).expect("ldrsb.w should execute");
    assert_eq!(cpu.registers[0], 0xFFFF_FF80);
    assert_eq!(cpu.program_counter(), 0x0800_0004);
}

#[test]
fn batch_controller_grows_after_full_batches() {
    let bytes = [
        0x00, 0x10, 0x00, 0x20, 0x09, 0x00, 0x00, 0x08, 0xFE, 0xE7, // b .
    ];
    let firmware = FirmwareImage::from_bin(0x0800_0000, &bytes);
    let mut machine = Machine::new(CortexM3::new(), make_target());
    machine.load_firmware(&firmware).expect("firmware should load");
    machine.reset_cpu().expect("cpu reset should work");
    let mut batches = StepBatchController::new(10);
    for _ in 0..7 {
        assert_eq!(batches.step_cpu(&mut machine), Ok(10));
        assert_eq!(batches.current_batch(), 10);
    }
    assert_eq!(batches.step_cpu(&mut machine), Ok(10));
    assert_eq!(batches.current_batch(), 100);
    assert_eq!(machine.cpu().program_counter(), 0x0800_0008);
}

#[test]
fn batch_controller_returns_a_plain_fault_unchanged() {
    let bytes = [
        0x00, 0x10, 0x00, 0x20, // SP = 0x20001000
        0x01, 0x00, 0x00, 0x09, // Reset = 0x09000001, outside every region
    ];
    let firmware = FirmwareImage::from_bin(0x0800_0000, &bytes);
    let mut machine = Machine::new(CortexM3::new(), make_target());
    machine.load_firmware(&firmware).expect("firmware should load");
    machine.reset_cpu().expect("cpu reset should work");
    let mut batches = StepBatchController::new(1_000);
    let err = batches.step_cpu(&mut machine).unwrap_err();
    assert!(err.contains("unmapped"), "{err}");
    assert_eq!(batches.current_batch(), 1_000);
}
