use rsemu::bus::access::AccessWidth;
use rsemu::bus::bus_context::BusContext;
use rsemu::bus::fsmc_bus::FsmcBus;
use rsemu::bus::gpio::GpioPin;
use rsemu::bus::i2c_bus::I2cBus;
use rsemu::bus::spi_bus::SpiBus;
use rsemu::bus::traits::{FrameUpdate, GpioListener, ParallelDevice, SpiSlave};
use rsemu::machine::meta::MmioWriteEvent;
use rsemu::peripherals::display::{St7789, St7789Core};
use rsemu::peripherals::led::{port_matches, Led, LedObserver};
use rsemu::peripherals::ssd1306::Ssd1306I2c;
use rsemu::peripherals::PinMapping;
use rsemu::target::{PeripheralSpec, RegisterSpec, RegisterValueSet};
use std::sync::{Arc, Mutex};

fn pin(port: &str, pin: u8) -> PinMapping {
    PinMapping { port: port.to_string(), pin }
}

fn ev(peripheral: &str, register: &str, addr: u64, width: u8, value: u32) -> MmioWriteEvent {
    MmioWriteEvent { peripheral: peripheral.to_string(), register: register.to_string(), addr, width, value }
}

#[test]
fn st7789_window_and_pixel() {
    let mut c = St7789Core::new(4, 3, String::new(), false, true);
    assert_eq!((c.window_x1, c.window_y1), (3, 2));
    c.write_command(0x2A);
    for b in [0, 1, 0, 2] {
        c.write_data(b);
    }
    assert_eq!((c.window_x0, c.window_x1), (1, 2));
    c.write_command(0x2C);
    assert_eq!((c.cursor_x, c.cursor_y), (1, 0));
    c.write_data(0xF8);
    c.write_data(0x00); // pure red in RGB565
    assert_eq!(c.framebuffer[1], 0xF800);
    assert_eq!(c.preview_rgba[1], 0xFF00_00FF);
    assert_eq!((c.cursor_x, c.cursor_y), (2, 0));
}

#[test]
fn st7789_frame_ends_after_window() {
    let mut c = St7789Core::new(2, 1, String::new(), true, true);
    c.write_command(0x2C);
    for b in [0xFF, 0xFF, 0x00, 0x1F] {
        c.write_data(b);
    }
    let frame = c.latest_frame().expect("a frame after the last pixel of the window");
    assert_eq!(frame, vec![0xFFFF_FFFF, 0xFFFF_0000]);
    assert_eq!(c.frame_id, 1);
    let dumps = c.take_frame_dumps();
    assert_eq!(dumps.len(), 1);
    assert_eq!(dumps[0].frame_id, 0);
    assert_eq!(dumps[0].pixels, vec![0xFFFF, 0x001F]);
    assert!(c.latest_frame().is_none());
}

#[test]
fn st7789_follows_its_pins_over_spi() {
    let mut d = St7789::new(2, 2, 0x4001_3000, pin("A", 4), pin("a", 3), None, String::new(), false, true);
    // not selected: ignored
    assert_eq!(d.transfer(0x2C), 0);
    d.pin_changed('a', 4, false); // CS low: selected
    d.pin_changed('A', 3, false); // DC low: command
    d.transfer(0x2C);
    d.pin_changed('A', 3, true); // data
    d.transfer(0x07);
    d.transfer(0xE0); // green
    d.write(1, 0x00, AccessWidth::Byte); // FSMC path: data
    d.write(1, 0x1F, AccessWidth::Byte);
    assert_eq!(d.read(0, AccessWidth::Word), 0);
    assert_eq!((d.width(), d.height()), (2, 2));
}

struct Recorder(Arc<Mutex<Vec<(String, bool)>>>);

impl LedObserver for Recorder {
    fn led_changed(&mut self, id: &str, on: bool) {
        self.0.lock().unwrap().push((id.to_string(), on));
    }
}

#[test]
fn led_reports_changes_only() {
    let seen = Arc::new(Mutex::new(Vec::new()));
    let mut led = Led::new("red".to_string(), pin(" f ", 12), true).with_callback(Box::new(Recorder(seen.clone())));
    assert!(!led.is_on());
    assert_eq!(led.on_pin('F', 12, false), Some(true));
    assert_eq!(led.on_pin('f', 12, false), None);
    assert_eq!(led.on_pin('F', 11, true), None);
    assert_eq!(led.on_pin('F', 12, true), Some(false));
    assert_eq!(*seen.lock().unwrap(), vec![("red".to_string(), true), ("red".to_string(), false)]);
}

#[test]
fn port_names_match_single_letters() {
    assert!(port_matches("A", 'a'));
    assert!(port_matches("\t b  ", 'B'));
    assert!(!port_matches("AB", 'A'));
    assert!(!port_matches("", 'A'));
    assert!(!port_matches("C", 'D'));
}

#[test]
fn bus_context_routes_by_name_and_window() {
    let mut ctx = BusContext::new();
    assert!(!ctx.has_bus_devices());
    let display = St7789::new(2, 2, 0x4001_3000, pin("A", 4), pin("A", 3), None, String::new(), false, true);
    ctx.register_spi("spi1".to_string(), SpiBus::new(Box::new(display)), Some(GpioPin::new('a', 4)), Some(GpioPin::new('A', 3)));
    ctx.register_i2c("I2C1".to_string(), I2cBus::new(Box::new(Ssd1306I2c::new(128, 64, "I2C1".to_string(), 0x3C))));
    let fsmc_display = St7789::new(2, 2, 0x6000_0000, pin("A", 0), pin("A", 0), None, String::new(), false, true);
    ctx.register_fsmc(0x6000_0000, 0x0100_0000, FsmcBus::new(Box::new(fsmc_display)));
    assert!(ctx.has_bus_devices());

    let s = ctx.dispatch_mmio(&ev("SPI1", "dr", 0x4001_300C, 4, 0x2C));
    assert_eq!((s.display_activity, s.mmio_routed), (true, 1));
    let s = ctx.dispatch_mmio(&ev("SPI2", "DR", 0x4000_380C, 4, 0x2C));
    assert_eq!((s.display_activity, s.mmio_routed), (false, 0));
    let s = ctx.dispatch_mmio(&ev("I2C1", "CR1", 0x4000_5400, 4, 0x100));
    assert_eq!((s.display_activity, s.mmio_routed), (false, 1));
    let s = ctx.dispatch_mmio(&ev("i2c1", "DR", 0x4000_5410, 4, 0x78));
    assert_eq!((s.display_activity, s.mmio_routed), (true, 1));
    let s = ctx.dispatch_mmio(&ev("GPIOA", "BSRR", 0x4001_0810, 4, 1 << (16 + 4)));
    assert_eq!((s.display_activity, s.mmio_routed), (false, 1));
    let s = ctx.dispatch_mmio(&ev("FSMC", "X", 0x6000_0001, 2, 0x2C));
    assert_eq!((s.display_activity, s.mmio_routed), (true, 1));
    let s = ctx.dispatch_mmio(&ev("B", "ODR", 0x7000_0000, 4, 0));
    assert_eq!((s.display_activity, s.mmio_routed), (false, 1));
    assert_eq!(ctx.poll_frames().len(), 0);
}

struct EchoPlusOne;

impl SpiSlave for EchoPlusOne {
    fn transfer(&mut self, mosi: u8) -> u8 {
        mosi.wrapping_add(1)
    }

    fn chip_select(&mut self, _active: bool) {}

    fn reset(&mut self) {}
}

#[test]
fn spi_read_gives_reply_of_write_once() {
    let mut bus = SpiBus::new(Box::new(EchoPlusOne));
    assert_eq!(bus.on_dr_read(), None);
    assert_eq!(bus.on_dr_write(0x41), 0x42);
    assert_eq!(bus.on_dr_read(), Some(0x42));
    assert_eq!(bus.on_dr_read(), None);
}

struct OneFrame {
    ready: bool,
}

impl SpiSlave for OneFrame {
    fn transfer(&mut self, _mosi: u8) -> u8 {
        0
    }

    fn chip_select(&mut self, _active: bool) {}

    fn reset(&mut self) {}

    fn poll_frame(&mut self) -> Option<FrameUpdate> {
        if self.ready {
            self.ready = false;
            Some(FrameUpdate { width: 1, height: 1, pixels: vec![0x00FF_0000] })
        } else {
            None
        }
    }
}

#[test]
fn spi_bus_hands_on_the_slave_frame() {
    let mut bus = SpiBus::new(Box::new(OneFrame { ready: true }));
    let f = bus.poll_frame().expect("frame");
    assert_eq!((f.width, f.height, f.pixels.clone()), (1, 1, vec![0x00FF_0000]));
    assert!(bus.poll_frame().is_none());
}

#[test]
fn bus_context_collects_frames_of_all_buses() {
    let mut ctx = BusContext::new();
    ctx.register_spi("SPI1".to_string(), SpiBus::new(Box::new(OneFrame { ready: true })), None, None);
    ctx.register_spi("SPI2".to_string(), SpiBus::new(Box::new(OneFrame { ready: false })), None, None);
    ctx.register_spi("SPI3".to_string(), SpiBus::new(Box::new(OneFrame { ready: true })), None, None);
    assert_eq!(ctx.poll_frames().len(), 2);
    assert_eq!(ctx.poll_frames().len(), 0);
}

#[test]
fn register_values_read_back_writes() {
    let spec = vec![PeripheralSpec {
        name: "GPIOA".to_string(),
        base_address: 0x4001_0800,
        registers: vec![RegisterSpec { name: "ODR".to_string(), address: 0x4001_080C, width_bits: 32, reset_value: 0x1234 }],
    }];
    let mut regs = RegisterValueSet::new(&spec);
    assert_eq!(regs.read8(0x4001_080C), Some(0x34));
    assert!(regs.write8(0x4001_080C, 0xAB));
    assert_eq!(regs.read8(0x4001_080C), Some(0xAB));
    assert!(!regs.write8(0x4001_0810, 1));
    assert_eq!(regs.read8(0x4001_0810), None);
}

#[test]
fn led_pin_names() {
    assert_eq!(Led::new("x".to_string(), pin("c", 13), true).pin_name(), "PC13");
    assert_eq!(Led::new("y".to_string(), pin("B", 0), false).pin_name(), "PB0");
}
