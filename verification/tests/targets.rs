use rsemu::board::board_info_from_target;
use rsemu::cli::CliArgs;
use rsemu::image::{detect_format, parse_elf32, FirmwareFormat, FirmwareLoader};
use rsemu::prefs::AppPreferences;
use rsemu::sim::{encode_rgba_frame_base64, led_id, normalize_ssd1306_size, spi_bus_name};
use rsemu::target::{MemoryRegionKind, PeripheralSpec};
use rsemu::targets::config::{CpuTypeConfig, MemoryKindConfig, MemoryRegionConfig, RccPatch, TargetConfig};
use rsemu::targets::patch::parse_hex;
use rsemu::targets::registry::TargetRegistry;
use rsemu::targets::stm32::{f103, f407};
use rsemu::peripherals::PinMapping;

const SVD: &str = r#"<device><name>T</name><peripherals>
  <peripheral><name>RCC</name><baseAddress>0x40021000</baseAddress><registers>
    <register><name>CR</name><addressOffset>0</addressOffset><resetValue>0x83</resetValue></register>
    <register><name>CSR</name><addressOffset>0x24</addressOffset></register>
  </registers></peripheral>
  <peripheral><name>SPI2</name><baseAddress>0x40003800</baseAddress></peripheral>
  <peripheral><name>SPI1</name><baseAddress>0x40013000</baseAddress></peripheral>
  <peripheral><name>GPIOC</name><baseAddress>0x40011000</baseAddress></peripheral>
  <peripheral><name>GPIOA</name><baseAddress>0x40010800</baseAddress></peripheral>
  <peripheral><name>USART1</name><baseAddress>0x40013800</baseAddress></peripheral>
</peripherals></device>"#;

fn config() -> TargetConfig {
    TargetConfig {
        id: "t1".to_string(),
        name: "Test".to_string(),
        cpu_type: CpuTypeConfig::CortexM3,
        hsi_hz: 8_000_000,
        core_clock_hz: 72_000_000,
        has_pllcfgr: false,
        vector_table_base: "0x08000000".to_string(),
        systick_reload_divider: 8,
        svd_file: "t.svd".to_string(),
        memory_map: vec![
            MemoryRegionConfig { name: "flash".to_string(), start: "0x08000000".to_string(), end: "0x08010000".to_string(), kind: MemoryKindConfig::Flash },
            MemoryRegionConfig { name: "ram".to_string(), start: "20000000".to_string(), end: "0x20005000".to_string(), kind: MemoryKindConfig::Ram },
        ],
        rcc_patches: vec![RccPatch { register: "CR".to_string(), or_value: "0x02020002".to_string() }],
    }
}

#[test]
fn build_target_spec_applies_patches() {
    let t = config().build_target_spec(SVD).unwrap();
    assert_eq!(t.name, "Test");
    assert_eq!(t.vector_table_base, 0x0800_0000);
    assert_eq!(t.memory_map.len(), 2);
    assert_eq!(t.memory_map[1].range, 0x2000_0000..0x2000_5000);
    let rcc = &t.peripherals[0];
    assert_eq!(rcc.registers[0].reset_value, 0x0202_0083);
    assert_eq!(rcc.registers[1].reset_value, 0);
}

#[test]
fn build_target_spec_errors() {
    let mut c = config();
    c.vector_table_base = "0xZZ".to_string();
    assert_eq!(
        c.build_target_spec(SVD).unwrap_err(),
        "invalid vector_table_base '0xZZ': invalid hex '0xZZ': invalid digit found in string"
    );
    let mut c = config();
    c.rcc_patches[0].or_value = String::new();
    assert_eq!(
        c.build_target_spec(SVD).unwrap_err(),
        "rcc_patches: invalid or_value '': invalid hex '': cannot parse integer from empty string"
    );
    assert_eq!(config().build_target_spec("<x/>").unwrap_err(), "SVD parse error: missing <peripherals> block in SVD");
}

#[test]
fn hex_values_drop_repeated_prefixes() {
    assert_eq!(parse_hex(" 0x0x1f ").unwrap(), 0x1F);
    assert_eq!(parse_hex("0X10").unwrap(), 0x10);
    assert!(parse_hex("0X0x1").is_err());
}

#[test]
fn stm32_targets() {
    assert_eq!(f103::load_target(None).unwrap_err(), "missing SVD: pass --svd path/to/stm32f103.svd");
    let t = f103::load_target(Some(SVD)).unwrap();
    assert_eq!(t.name, "STM32F103");
    assert_eq!(t.memory_map.len(), 4);
    let t = f407::load_target(Some(SVD)).unwrap();
    assert_eq!(t.memory_map.len(), 5);
    assert_eq!(t.peripherals[0].registers[0].reset_value, 0x0202_0083);
    assert_eq!(t.peripherals[0].registers[1].reset_value, 2);
}

#[test]
fn registry_lists_sorted_unique_ids() {
    let mut b = config();
    b.id = "a0".to_string();
    let reg = TargetRegistry::from_configs(vec![(config(), SVD.to_string()), (b, String::new()), (config(), SVD.to_string())]);
    assert_eq!(reg.list_ids(), vec!["a0", "t1"]);
    assert_eq!(reg.get_config("t1").unwrap().name, "Test");
    assert!(reg.get_config("zz").is_none());
    assert_eq!(reg.embedded_svd("t.svd"), Some(SVD));
    assert_eq!(reg.load_with_svd("zz", SVD).unwrap_err(), "unknown target 'zz'");
    assert_eq!(reg.load_with_svd("t1", SVD).unwrap().name, "Test");
}

#[test]
fn board_info_summarizes_target() {
    let t = f103::load_target(Some(SVD)).unwrap();
    let info = board_info_from_target("stm32f103", "STM32F103 (Cortex-M3)", &t);
    assert_eq!(info.flash_kb, 1024);
    assert_eq!(info.ram_kb, 64);
    assert_eq!(info.description, "1024 KB Flash, 64 KB SRAM, 8 MHz");
    assert_eq!(info.gpio_ports, vec!["A".to_string(), "C".to_string()]);
    let spi: Vec<(String, u64)> = info.spi_peripherals.iter().map(|p| (p.name.clone(), p.base)).collect();
    assert_eq!(spi, vec![("SPI2".to_string(), 0x4000_3800), ("SPI1".to_string(), 0x4001_3000)]);
    assert_eq!(info.usart_peripherals.len(), 1);
    assert!(info.fsmc_peripherals.is_empty());
}

#[test]
fn preferences_keep_recent_projects() {
    let mut p = AppPreferences::default();
    for i in 0..12 {
        p.remember(format!("/p{i}"));
    }
    assert_eq!(p.recent_projects.len(), 10);
    assert_eq!(p.recent_projects[0], "/p11");
    p.remember("/p5".to_string());
    assert_eq!(p.recent_projects[0], "/p5");
    assert_eq!(p.recent_projects.iter().filter(|x| x.as_str() == "/p5").count(), 1);
    p.forget("/p5");
    assert!(!p.recent_projects.iter().any(|x| x == "/p5"));
    assert_eq!(p.last_opened_project, None);
    p.remember("/q".to_string());
    p.clear_last();
    assert_eq!(p.last_opened_project, None);
    assert_eq!(p.recent_projects[0], "/q");
}

#[test]
fn cli_arguments() {
    let args = |v: &[&str]| v.iter().map(|s| s.to_string()).collect::<Vec<_>>();
    let c = CliArgs::from_args(&args(&[])).unwrap();
    assert_eq!((c.board_path.as_str(), c.max_steps, c.no_gui, c.fast_mode, c.dump_frames), ("board.toml", None, false, false, false));
    let c = CliArgs::from_args(&args(&["--board", "b.toml", "--max-steps", "1000", "--no-gui", "--fast", "--dump-frames"])).unwrap();
    assert_eq!((c.board_path.as_str(), c.max_steps, c.no_gui, c.fast_mode, c.dump_frames), ("b.toml", Some(1000), true, true, true));
    assert_eq!(CliArgs::from_args(&args(&["--board"])).unwrap_err(), "--board requires a path");
    assert_eq!(CliArgs::from_args(&args(&["--max-steps", "x"])).unwrap_err(), "invalid --max-steps value: x");
    assert_eq!(CliArgs::from_args(&args(&["--max-steps"])).unwrap_err(), "--max-steps requires an integer value");
    assert!(CliArgs::from_args(&args(&["-h"])).unwrap_err().starts_with("usage: rsemu-cli"));
    assert!(CliArgs::from_args(&args(&["--bogus"])).unwrap_err().starts_with("unknown argument: --bogus\n\nusage:"));
}

#[test]
fn simulation_helpers() {
    assert_eq!(normalize_ssd1306_size(96, 16), (96, 64));
    assert_eq!(normalize_ssd1306_size(100, 32), (128, 32));
    let ps = vec![PeripheralSpec { name: "spi1".to_string(), base_address: 0x4001_3000, registers: vec![] }];
    assert_eq!(spi_bus_name(&ps, 0x4001_3000), "SPI1");
    assert_eq!(spi_bus_name(&ps, 0x4000_3800), "SPI14336");
    assert_eq!(led_id(&None, &PinMapping { port: "f".to_string(), pin: 12 }), "F12");
    assert_eq!(led_id(&Some("red".to_string()), &PinMapping { port: "f".to_string(), pin: 12 }), "red");
}

fn elf_with_segment(load: u32, data: &[u8], memsz: u32) -> Vec<u8> {
    let mut b = vec![0u8; 52 + 32];
    b[0..4].copy_from_slice(b"\x7FELF");
    b[4] = 1;
    b[5] = 1;
    b[28..32].copy_from_slice(&52u32.to_le_bytes());
    b[42..44].copy_from_slice(&32u16.to_le_bytes());
    b[44..46].copy_from_slice(&1u16.to_le_bytes());
    let off = b.len() as u32;
    let ph = 52;
    b[ph..ph + 4].copy_from_slice(&1u32.to_le_bytes());
    b[ph + 4..ph + 8].copy_from_slice(&off.to_le_bytes());
    b[ph + 12..ph + 16].copy_from_slice(&load.to_le_bytes());
    b[ph + 16..ph + 20].copy_from_slice(&(data.len() as u32).to_le_bytes());
    b[ph + 20..ph + 24].copy_from_slice(&memsz.to_le_bytes());
    b.extend_from_slice(data);
    b
}

#[test]
fn elf_segments_are_loaded_and_padded() {
    let elf = elf_with_segment(0x0800_0000, &[1, 2, 3], 5);
    assert_eq!(detect_format(None, &elf), FirmwareFormat::Elf);
    let img = parse_elf32(&elf).unwrap();
    assert_eq!(img.segments().len(), 1);
    assert_eq!(img.segments()[0].load_address, 0x0800_0000);
    assert_eq!(img.segments()[0].bytes, vec![1, 2, 3, 0, 0]);
}

#[test]
fn elf_errors_and_binaries() {
    assert_eq!(parse_elf32(&[0; 10]).unwrap_err(), "ELF file is too small");
    assert_eq!(parse_elf32(&[0; 60]).unwrap_err(), "invalid ELF magic");
    let mut elf = elf_with_segment(0, &[1], 1);
    elf[4] = 2;
    assert_eq!(parse_elf32(&elf).unwrap_err(), "only ELF32 is supported");
    let mut elf = elf_with_segment(0, &[1], 1);
    elf[52] = 2; // not PT_LOAD
    assert_eq!(parse_elf32(&elf).unwrap_err(), "ELF file has no PT_LOAD segment");
    let mut elf = elf_with_segment(0, &[1], 1);
    elf[52 + 16] = 200; // file size beyond the file
    assert_eq!(parse_elf32(&elf).unwrap_err(), "ELF load segment exceeds file length");
    assert_eq!(detect_format(Some("elf"), &[1, 2]), FirmwareFormat::Elf);
    assert_eq!(detect_format(Some("bin"), &[1, 2]), FirmwareFormat::Bin);
    let img = FirmwareLoader::load_bytes(Some("bin"), &[9, 8, 7], 0x0800_0000).unwrap();
    assert_eq!(img.segments()[0].bytes, vec![9, 8, 7]);
    assert_eq!(img.segments()[0].load_address, 0x0800_0000);
    let _ = MemoryRegionKind::Flash;
}

#[test]
fn board_info_keeps_order_of_equal_bases() {
    let mut t = f103::load_target(Some(SVD)).unwrap();
    let p = |name: &str, base: u64| PeripheralSpec { name: name.to_string(), base_address: base, registers: vec![] };
    t.peripherals = vec![p("i2c_b", 0x4000_5800), p("I2C_A", 0x4000_5800), p("i2c0", 0x4000_5400), p("GPIOB", 0x4001_0C00), p("gpioa", 0x4001_0800)];
    let info = board_info_from_target("x", "X", &t);
    let i2c: Vec<(String, u64)> = info.i2c_peripherals.iter().map(|p| (p.name.clone(), p.base)).collect();
    assert_eq!(
        i2c,
        vec![("i2c0".to_string(), 0x4000_5400), ("i2c_b".to_string(), 0x4000_5800), ("I2C_A".to_string(), 0x4000_5800)]
    );
    assert_eq!(info.gpio_ports, vec!["B".to_string(), "a".to_string()]);
}

#[test]
fn frames_are_sent_as_base64_of_little_endian_pixels() {
    assert_eq!(encode_rgba_frame_base64(&[0x1122_3344]), "RDMiEQ==");
    assert_eq!(encode_rgba_frame_base64(&[0x0403_0201, 0x0807_0605]), "AQIDBAUGBwg=");
    assert_eq!(encode_rgba_frame_base64(&[]), "");
}
