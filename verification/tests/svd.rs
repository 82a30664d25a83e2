use rsemu::svd::number::parse_u64;
use rsemu::svd::parse_svd;
use rsemu::svd::xml::{collect_tag_blocks, collect_tag_blocks_with_attrs, first_tag_text};

#[test]
fn parse_minimal_svd() {
    let xml = r#"
        <device>
          <name>STM32F103</name>
          <peripherals>
            <peripheral>
              <name>GPIOA</name>
              <baseAddress>0x40010800</baseAddress>
              <registers>
                <register>
                  <name>CRL</name>
                  <addressOffset>0x0</addressOffset>
                  <size>32</size>
                  <resetValue>0x44444444</resetValue>
                </register>
              </registers>
            </peripheral>
          </peripherals>
        </device>
        "#;

    let device = parse_svd(xml).expect("svd should parse");
    assert_eq!(device.name, "STM32F103");
    assert_eq!(device.peripherals.len(), 1);
    assert_eq!(device.peripherals[0].registers[0].address, 0x4001_0800);
}

#[test]
fn derived_peripheral_takes_parent_registers_at_its_base() {
    let xml = r#"
        <device><name>D</name><peripherals>
          <peripheral><name>GPIOA</name><baseAddress>0x40010800</baseAddress>
            <registers><register><name>IDR</name><addressOffset>0x8</addressOffset></register></registers>
          </peripheral>
          <peripheral derivedFrom="GPIOA"><name>GPIOB</name><baseAddress>0x40010C00</baseAddress></peripheral>
        </peripherals></device>"#;
    let device = parse_svd(xml).unwrap();
    assert_eq!(device.peripherals.len(), 2);
    let b = &device.peripherals[1];
    assert_eq!(b.name, "GPIOB");
    assert_eq!(b.registers.len(), 1);
    assert_eq!(b.registers[0].name, "IDR");
    assert_eq!(b.registers[0].address, 0x4001_0C08);
    assert_eq!(b.registers[0].width_bits, 32);
    assert_eq!(b.registers[0].reset_value, 0);
}

#[test]
fn svd_errors() {
    assert_eq!(parse_svd("<device></device>").unwrap_err(), "missing <peripherals> block in SVD");
    assert_eq!(
        parse_svd("<peripherals></peripherals>").unwrap_err(),
        "SVD does not define any <peripheral>"
    );
    assert_eq!(
        parse_svd("<peripherals><peripheral><baseAddress>1</baseAddress></peripheral></peripherals>").unwrap_err(),
        "peripheral missing <name>"
    );
    assert_eq!(
        parse_svd("<peripherals><peripheral><name>X</name></peripheral></peripherals>").unwrap_err(),
        "peripheral X missing <baseAddress>"
    );
    assert_eq!(
        parse_svd("<peripherals><peripheral><name>X</name><baseAddress>zz</baseAddress></peripheral></peripherals>")
            .unwrap_err(),
        "invalid digit found in string"
    );
    let d = parse_svd("<peripherals><peripheral><name>X</name><baseAddress>16</baseAddress></peripheral></peripherals>")
        .unwrap();
    assert_eq!(d.name, "X");
    assert_eq!(d.peripherals[0].base_address, 16);
}

#[test]
fn numbers_in_decimal_and_hex() {
    assert_eq!(parse_u64(" 42 ").unwrap(), 42);
    assert_eq!(parse_u64("0x1F").unwrap(), 31);
    assert_eq!(parse_u64("0XfF").unwrap(), 255);
    assert_eq!(parse_u64("+7").unwrap(), 7);
    assert_eq!(parse_u64("").unwrap_err(), "cannot parse integer from empty string");
    assert_eq!(parse_u64("-1").unwrap_err(), "invalid digit found in string");
    assert_eq!(parse_u64("18446744073709551616").unwrap_err(), "number too large to fit in target type");
    assert_eq!(parse_u64("18446744073709551615").unwrap(), u64::MAX);
}

#[test]
fn tag_blocks_and_attributes() {
    let xml = "<a x=\"1\"> one </a><b>skip</b><a>two</a><a>unclosed";
    let blocks = collect_tag_blocks_with_attrs(xml, "a");
    assert_eq!(blocks.len(), 2);
    assert_eq!(blocks[0].content, "one");
    assert_eq!(blocks[0].attrs, "x=\"1\"");
    assert_eq!(blocks[1].content, "two");
    assert_eq!(blocks[1].attrs, "");
    assert_eq!(collect_tag_blocks(xml, "b"), vec!["skip".to_string()]);
    assert_eq!(first_tag_text(xml, "c"), None);
    assert_eq!(first_tag_text(xml, "b"), Some("skip".to_string()));
}
