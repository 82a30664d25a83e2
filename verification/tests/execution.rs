use rsemu::execution::{adc_regs_addrs, adc_sr_dr_addrs, gpio_idr_addr, gpio_port_letter, pin_to_adc_channel, StepBatchController, is_retryable_error};
use rsemu::target::{PeripheralSpec, RegisterSpec};

/// A PeripheralSpec named "ADC1" with SR at `base` and DR at `base + 0x4C`.
fn make_adc(base: u64) -> PeripheralSpec {
    PeripheralSpec {
        name: "ADC1".to_string(),
        base_address: base,
        registers: vec![
            RegisterSpec { name: "SR".to_string(), address: base, width_bits: 32, reset_value: 0 },
            RegisterSpec { name: "DR".to_string(), address: base + 0x4C, width_bits: 32, reset_value: 0 },
        ],
    }
}

#[test]
fn test_pin_to_adc_channel_pa() {
    assert_eq!(pin_to_adc_channel('A', 0).unwrap(), 0);
    assert_eq!(pin_to_adc_channel('A', 7).unwrap(), 7);
}

#[test]
fn test_pin_to_adc_channel_pb() {
    assert_eq!(pin_to_adc_channel('B', 0).unwrap(), 8);
    assert_eq!(pin_to_adc_channel('B', 1).unwrap(), 9);
}

#[test]
fn test_pin_to_adc_channel_pc() {
    assert_eq!(pin_to_adc_channel('C', 0).unwrap(), 10);
    assert_eq!(pin_to_adc_channel('C', 5).unwrap(), 15);
}

#[test]
fn test_pin_to_adc_channel_invalid() {
    assert!(pin_to_adc_channel('D', 0).is_err());
    assert!(pin_to_adc_channel('B', 2).is_err());
}

#[test]
fn test_adc_sr_dr_addrs() {
    let base: u64 = 0x4001_2400;
    let peripherals = vec![make_adc(base)];
    let (sr, dr) = adc_sr_dr_addrs("ADC1", &peripherals).unwrap();
    assert_eq!(sr, base);
    assert_eq!(dr, base + 0x4C);
}

#[test]
fn test_adc_sr_dr_addrs_case_insensitive() {
    let base: u64 = 0x4001_2400;
    let peripherals = vec![make_adc(base)];
    let (sr, dr) = adc_sr_dr_addrs("adc1", &peripherals).unwrap();
    assert_eq!(sr, base);
    assert_eq!(dr, base + 0x4C);
}

#[test]
fn test_adc_sr_dr_addrs_not_found() {
    let peripherals = vec![make_adc(0x4001_2400)];
    assert!(adc_sr_dr_addrs("ADC3", &peripherals).is_err());
}

#[test]
fn pin_without_channel_names_the_pin() {
    assert_eq!(pin_to_adc_channel('c', 12).unwrap_err(), "GPIOC12 has no ADC channel mapping");
    assert_eq!(pin_to_adc_channel('a', 3).unwrap(), 3);
}

#[test]
fn adc_lookup_errors_name_what_is_missing() {
    let peripherals = vec![make_adc(0x4001_2400)];
    assert_eq!(
        adc_sr_dr_addrs("ADC3", &peripherals).unwrap_err(),
        "ADC peripheral 'ADC3' not found in target spec"
    );
    assert_eq!(
        adc_regs_addrs("ADC1", &peripherals).unwrap_err(),
        "SQR3 register not found in ADC1"
    );
}

#[test]
fn adc_regs_addrs_gives_all_four() {
    let base: u64 = 0x4001_2000;
    let mut adc = make_adc(base);
    adc.registers.push(RegisterSpec { name: "CR2".to_string(), address: base + 0x08, width_bits: 32, reset_value: 0 });
    adc.registers.push(RegisterSpec { name: "SQR3".to_string(), address: base + 0x34, width_bits: 32, reset_value: 0 });
    let peripherals = vec![adc];
    assert_eq!(adc_regs_addrs("Adc1", &peripherals).unwrap(), (base, base + 0x4C, base + 0x34, base + 0x08));
}

#[test]
fn gpio_port_letter_reads_the_fifth_character() {
    assert_eq!(gpio_port_letter("GPIOA"), Some('A'));
    assert_eq!(gpio_port_letter("GPIOx"), Some('x'));
    assert_eq!(gpio_port_letter("GPIO"), None);
    assert_eq!(gpio_port_letter("gpioa"), None);
    assert_eq!(gpio_port_letter("SPI1"), None);
}

#[test]
fn gpio_idr_addr_steps_by_port() {
    let gpioa = PeripheralSpec {
        name: "GPIOA".to_string(),
        base_address: 0x4001_0800,
        registers: vec![RegisterSpec { name: "IDR".to_string(), address: 0x4001_0808, width_bits: 32, reset_value: 0 }],
    };
    let peripherals = vec![gpioa];
    assert_eq!(gpio_idr_addr('A', &peripherals).unwrap(), 0x4001_0808);
    assert_eq!(gpio_idr_addr('c', &peripherals).unwrap(), 0x4001_1008);
    assert_eq!(gpio_idr_addr('A', &[]).unwrap_err(), "GPIOA not found in target spec");
}

#[test]
fn batch_controller_starts_at_a_known_size() {
    assert_eq!(StepBatchController::new(0).current_batch(), 1);
    assert_eq!(StepBatchController::new(99).current_batch(), 10);
    assert_eq!(StepBatchController::new(4_999).current_batch(), 1_000);
    assert_eq!(StepBatchController::new(7_000).current_batch(), 5_000);
    assert_eq!(StepBatchController::new(1_000_000).current_batch(), 10_000);
}

#[test]
fn retryable_step_errors() {
    assert!(is_retryable_error("uc error: MAP"));
    assert!(is_retryable_error("fault MAP at 0x0"));
    assert!(is_retryable_error("unicorn batch failed at pc=0x00000001: EXCEPTION"));
    assert!(!is_retryable_error("MAP"));
    assert!(!is_retryable_error("unimplemented Thumb instruction 0xde00"));
}
