use rsemu::console::UartTerminalConsole;
use rsemu::cli::format_gpio_event;
use rsemu::machine::meta::MmioWriteEvent;
use rsemu::memory::MemoryBlock;
use rsemu::text::{contains_ignore_ascii_case, contains_str, eq_ignore_ascii_case, starts_with};

fn ev(peripheral: &str, register: &str, addr: u64, value: u32) -> MmioWriteEvent {
    MmioWriteEvent { peripheral: peripheral.to_string(), register: register.to_string(), addr, width: 4, value }
}

#[test]
fn gpio_lines_list_pins() {
    assert_eq!(
        format_gpio_event(&ev("GPIOA", "BSRR", 0x4001_0810, 0x0010_0001)),
        "gpio.GPIOA.BSRR @ 0x40010810 <= 0x00100001 (set: [PA0], reset: [PA4])"
    );
    assert_eq!(
        format_gpio_event(&ev("GPIOC", "odr", 0x4001_100C, 0x2003)),
        "gpio.GPIOC.odr @ 0x4001100c <= 0x00002003 (high: [PC0, PC1, PC13])"
    );
    assert_eq!(format_gpio_event(&ev("GPIOB", "IDR", 0x10, 5)), "gpio.GPIOB.IDR @ 0x00000010 <= 0x00000005");
}

#[test]
fn read_only_block_names_the_address() {
    let mut flash = MemoryBlock::new(0x0800_0000, 16, false);
    assert_eq!(flash.write8(0x0800_0004, 1).unwrap_err(), "write to read-only memory 0x08000004");
    let mut ram = MemoryBlock::new(0x2000_0000, 16, true);
    assert!(ram.write32(0x2000_0004, 0xDEAD_BEEF).is_ok());
    assert_eq!(ram.read32(0x2000_0004), Some(0xDEAD_BEEF));
    assert_eq!(ram.read8(0x2000_0004), Some(0xEF));
}

#[test]
fn text_helpers() {
    assert!(contains_str("cpu: MAP fault", " MAP"));
    assert!(!contains_str("cpu: map fault", " MAP"));
    assert!(contains_ignore_ascii_case("Hello World", "WORLD"));
    assert!(eq_ignore_ascii_case("GpioA", "GPIOa"));
    assert!(starts_with("GPIOA", "GPIO"));
    assert!(!starts_with("GPI", "GPIO"));
}

#[test]
fn uart_console_prefixes_lines() {
    let mut t = UartTerminalConsole::new("USART1", true);
    assert!(t.matches_peripheral("usart1"));
    assert!(!t.matches_peripheral("USART2"));
    assert_eq!(t.peripheral_name(), "USART1");
    let a = t.write_tx_byte(b'h');
    assert_eq!((a.prefix.as_deref(), a.byte, a.flush), (Some("[USART1] "), b'h', false));
    let b = t.write_tx_byte(b'\n');
    assert_eq!((b.prefix.as_deref(), b.flush), (None, true));
    let c = t.write_tx_byte(b'x');
    assert_eq!(c.prefix.as_deref(), Some("[USART1] "));
    let mut single = UartTerminalConsole::new("USART2", false);
    assert_eq!(single.write_tx_byte(b'x').prefix, None);
}

#[test]
fn segment_past_block_end_is_refused() {
    let mut flash = MemoryBlock::new(0x0800_0000, 16, false);
    assert_eq!(
        flash.load_bytes(0x0800_000C, &[0; 8]).unwrap_err(),
        "segment end 0x08000014 exceeds memory block 0x08000000..0x08000010"
    );
    assert!(flash.load_bytes(0x0800_0008, &[7; 8]).is_ok());
    assert_eq!(flash.read8(0x0800_000F), Some(7));
}
