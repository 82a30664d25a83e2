use rsemu::bus::traits::I2cSlave;
use rsemu::peripherals::ssd1306::{Ssd1306Core, Ssd1306I2c};

#[test]
fn ssd1306_i2c_slave_trait() {
    let mut d = Ssd1306I2c::new(128, 64, "I2C1".into(), 0x3c);

    // Simulate I2cSlave protocol
    assert!(d.address(0x3c, false)); // ACK our address
    d.write_byte(0x00); // control byte: command stream
    d.write_byte(0xB0); // set page 0
    d.write_byte(0x00); // set low col
    d.write_byte(0x10); // set high col
    d.stop();
    let _ = d.latest_frame(); // clear initial snapshot

    // Data transfer
    assert!(d.address(0x3c, false));
    d.write_byte(0x40); // control byte: data stream
    d.write_byte(0b0000_1111);
    d.stop();

    let frame = d.latest_frame().expect("expected a frame snapshot");
    let on_pixels = frame.iter().filter(|&&px| px == 0xFFFF_FFFF).count();
    assert!(on_pixels >= 4, "expected lit pixels from written byte");
}

#[test]
fn ssd1306_ignores_other_addresses_and_reads() {
    let mut d = Ssd1306I2c::new(128, 32, "I2C1".into(), 0xBC);
    assert!(d.address(0x3C, false));
    assert!(!d.address(0x3C, true));
    assert!(!d.address(0x3D, false));
    assert_eq!(d.read_byte(), 0);
    assert_eq!(d.width(), 128);
    assert_eq!(d.height(), 32);
    assert!(d.latest_frame().is_none());
}

#[test]
fn ssd1306_core_geometry() {
    let c = Ssd1306Core::new(128, 64);
    assert_eq!(c.gddram.len(), 128 * 8);
    assert_eq!(c.preview_argb.len(), 128 * 64);
    assert_eq!(c.col_end, 127);
    assert_eq!(c.page_end, 7);
    let c = Ssd1306Core::new(300, 5);
    assert_eq!(c.col_end, 255);
    assert_eq!(c.page_end, 0);
}

#[test]
fn ssd1306_column_window_and_horizontal_mode() {
    let mut c = Ssd1306Core::new(128, 64);
    c.write_command(0x20);
    c.write_command(0x00); // horizontal addressing
    c.write_command(0x21);
    c.write_command(10);
    c.write_command(11); // columns 10..11
    assert_eq!((c.col_start, c.col_end, c.col), (10, 11, 10));
    c.write_data(0xFF);
    c.write_data(0x01);
    assert_eq!(c.gddram[10], 0xFF);
    assert_eq!(c.gddram[11], 0x01);
    assert_eq!((c.page, c.col), (1, 10));
    // bit 0 of the second byte lights row 0, column 11
    assert_eq!(c.preview_argb[11], 0xFFFF_FFFF);
    assert_eq!(c.preview_argb[128 + 11], 0xFF00_0000);
}
