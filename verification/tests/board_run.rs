use rsemu::bus::adc_dac::{AdcPeripheral, DacPeripheral};
use rsemu::bus::traits::{AnalogSink, AnalogSource};
use rsemu::cpu::armv7m_legacy::CortexM3;
use rsemu::cpu::ArchitectureId;
use rsemu::execution::inject_gpio;
use rsemu::machine::meta::MmioWriteEvent;
use rsemu::machine::Machine;
use rsemu::peripherals::config::{PeripheralConfig, PinMapping};
use rsemu::run::RunControl;
use rsemu::sim::build_bus_context;
use rsemu::target::{CpuType, MemoryRegion, MemoryRegionKind, PeripheralSpec, RegisterSpec, TargetSpec};
use std::sync::{Arc, Mutex};

fn gpio_target() -> TargetSpec {
    TargetSpec {
        name: "gpio-target".to_string(),
        architecture: ArchitectureId::ArmV7M,
        cpu_type: CpuType::CortexM3,
        vector_table_base: 0x0800_0000,
        core_clock_hz: 8_000_000,
        hsi_hz: 8_000_000,
        has_pllcfgr: false,
        systick_reload_divider: 1024,
        memory_map: vec![MemoryRegion {
            name: "ram".to_string(),
            range: 0x2000_0000..0x2000_1000,
            kind: MemoryRegionKind::Ram,
        }],
        peripherals: vec![],
    }
}

fn gpioa_in_ram() -> Vec<PeripheralSpec> {
    vec![PeripheralSpec {
        name: "GPIOA".to_string(),
        base_address: 0x2000_0000,
        registers: vec![RegisterSpec { name: "IDR".to_string(), address: 0x2000_0008, width_bits: 32, reset_value: 0 }],
    }]
}

fn idr_word(machine: &mut Machine<CortexM3>, addr: u64) -> u32 {
    let mut w = 0u32;
    for k in 0..4u64 {
        w |= u32::from(machine.read8(addr + k).unwrap()) << (8 * k);
    }
    w
}

#[test]
fn injected_input_sets_and_clears_one_idr_bit() {
    let ps = gpioa_in_ram();
    let mut machine = Machine::new(CortexM3::new(), gpio_target());
    machine.write8(0x2000_0409, 0x80).unwrap();
    assert_eq!(inject_gpio(&mut machine, 'b', 3, true, &ps), Ok(()));
    assert_eq!(idr_word(&mut machine, 0x2000_0408), 0x0000_8008);
    assert_eq!(inject_gpio(&mut machine, 'B', 15, false, &ps), Ok(()));
    assert_eq!(idr_word(&mut machine, 0x2000_0408), 0x0000_0008);
    assert_eq!(idr_word(&mut machine, 0x2000_0008), 0);
}

#[test]
fn injected_input_needs_gpioa() {
    let mut machine = Machine::new(CortexM3::new(), gpio_target());
    assert_eq!(inject_gpio(&mut machine, 'A', 0, true, &[]), Err("GPIOA not found in target spec".to_string()));
}

#[test]
fn run_control_streams_beats_and_stops() {
    let mut control = RunControl::new(Some(100), false);
    assert!(!control.limit_reached());
    let d = control.on_batch(64);
    assert!(d.stream && !d.heartbeat && !d.stop);
    let d = control.on_batch(40);
    assert!(!d.stream && !d.heartbeat && d.stop);
    assert_eq!(control.steps(), 104);
    assert!(control.limit_reached());

    let mut fast = RunControl::new(None, true);
    let d = fast.on_batch(4000);
    assert!(!d.stream && !d.heartbeat && !d.stop);
    let d = fast.on_batch(100);
    assert!(d.stream);
    for _ in 0..24 {
        fast.on_batch(10_000);
    }
    let d = fast.on_batch(10_000);
    assert!(d.heartbeat && !d.stop);
    assert_eq!(fast.steps(), 254_100);
}

#[test]
fn zero_step_limit_runs_nothing() {
    let control = RunControl::new(Some(0), false);
    assert!(control.limit_reached());
}

fn pin(port: &str, pin: u8) -> PinMapping {
    PinMapping { port: port.to_string(), pin }
}

#[test]
fn board_peripherals_become_bus_bindings() {
    let ps = vec![PeripheralSpec { name: "spi1".to_string(), base_address: 0x4001_3000, registers: vec![] }];
    let cfgs = vec![
        PeripheralConfig::St7789Spi { width: 2, height: 2, spi_base: 0x4001_3000, cs: pin("a", 4), dc: pin("A", 3), res: None },
        PeripheralConfig::Uart { usart: "USART2".to_string(), tx: None, rx: None },
        PeripheralConfig::Led { id: None, pin: pin("C", 13), active_low: true },
        PeripheralConfig::Ssd1306I2c { width: 128, height: 64, i2c: "i2c1".to_string(), address: 0x3C },
        PeripheralConfig::Button { id: "b".to_string(), pin: pin("A", 0) },
    ];
    let (mut ctx, uarts) = build_bus_context(&cfgs, &ps);
    assert_eq!(uarts, vec!["USART2".to_string()]);
    assert!(ctx.has_bus_devices());
    let spi = MmioWriteEvent { peripheral: "SPI1".to_string(), register: "DR".to_string(), addr: 0x4001_300C, width: 4, value: 0x2C };
    let s = ctx.dispatch_mmio(&spi);
    assert_eq!((s.display_activity, s.mmio_routed), (true, 1));
    let i2c = MmioWriteEvent { peripheral: "I2C1".to_string(), register: "CR1".to_string(), addr: 0x4000_5400, width: 4, value: 0x100 };
    assert_eq!(ctx.dispatch_mmio(&i2c).mmio_routed, 1);
}

struct Raw(u16);

impl AnalogSource for Raw {
    fn sample(&mut self, _channel: u8) -> u16 {
        self.0
    }
}

#[test]
fn adc_sample_clamps_the_source_value() {
    let mut adc = AdcPeripheral::new(4);
    adc.set_default(1, 0x123);
    adc.set_source(2, Box::new(Raw(5000)));
    adc.set_source(3, Box::new(Raw(7)));
    assert_eq!(adc.sample(1), 0x123);
    assert_eq!(adc.sample(2), 0x0FFF);
    assert_eq!(adc.sample(3), 7);
    assert_eq!(adc.sample(9), 0);
}

struct Recorder(Arc<Mutex<Vec<(u8, u16)>>>);

impl AnalogSink for Recorder {
    fn output(&mut self, channel: u8, value: u16) {
        self.0.lock().unwrap().push((channel, value));
    }
}

#[test]
fn dac_hands_the_clamped_value_to_its_sink() {
    let seen = Arc::new(Mutex::new(Vec::new()));
    let mut dac = DacPeripheral::new();
    dac.set_sink(1, Box::new(Recorder(seen.clone())));
    dac.write(1, 5000);
    dac.write(0, 12);
    dac.write(2, 1);
    assert_eq!(dac.read(1), 0x0FFF);
    assert_eq!(dac.read(0), 12);
    assert_eq!(*seen.lock().unwrap(), vec![(1, 0x0FFF)]);
}
