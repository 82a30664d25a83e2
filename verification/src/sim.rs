//! Simulation set-up for a front end: messages to a running emulator, its status, how
//! board peripherals are named and sized, and how display frames are sent.
use base64::Engine;
use crate::bus::bus_context::BusContext;
use crate::bus::fsmc_bus::FsmcBus;
use crate::bus::gpio::GpioPin;
use crate::bus::i2c_bus::I2cBus;
use crate::bus::spi_bus::SpiBus;
use crate::peripherals::config::{PeripheralConfig, PinMapping};
use crate::peripherals::display::St7789;
use crate::peripherals::led::{Led, LedObserver};
use crate::peripherals::ssd1306::Ssd1306I2c;
use crate::target::PeripheralSpec;
use crate::text::{ascii_upper, concat3, decimal, decimal64_message, decimal_message, to_upper};
use vstd::prelude::*;

verus! {

/// A request to a running emulator.
#[derive(Debug, Clone)]
pub enum ControlMsg {
    Stop,
    InjectGpio { port: String, pin: u8, high: bool },
    SendUart { peripheral: String, bytes: Vec<u8> },
    InjectAdc { peripheral: String, channel: u8, value: u16 },
}

/// What a front end asks to simulate: a board, a firmware file and the attached peripherals.
#[derive(Debug, Clone)]
pub struct SimConfig {
    pub board: String,
    pub firmware_path: String,
    pub peripherals: Vec<PeripheralConfig>,
}

/// The state of a simulation as a front end shows it.
#[derive(Debug, Clone)]
pub struct SimStatusPayload {
    pub steps: u64,
    pub running: bool,
    pub error: Option<String>,
}

/// An SSD1306 panel size the controller supports: width 64, 72, 96 or 128 (else 128), height
/// 32, 40, 48 or 64 (else 64).
pub open spec fn spec_ssd1306_size(width: u16, height: u16) -> (u16, u16) {
    (
        if width == 64 || width == 72 || width == 96 || width == 128 { width } else { 128 },
        if height == 32 || height == 40 || height == 48 || height == 64 { height } else { 64 },
    )
}

/// The supported SSD1306 panel size nearest to what a board asks for (see
/// `spec_ssd1306_size`).
pub fn normalize_ssd1306_size(width: u16, height: u16) -> (r: (u16, u16))
    ensures
        r == spec_ssd1306_size(width, height),
{
    let w = if width == 64 || width == 72 || width == 96 || width == 128 { width } else { 128 };
    let h = if height == 32 || height == 40 || height == 48 || height == 64 { height } else { 64 };
    (w, h)
}

/// The first peripheral of `ps` at base address `base`.
pub open spec fn peripheral_at(ps: Seq<PeripheralSpec>, base: u64, n: int) -> Option<PeripheralSpec>
    decreases n,
{
    if n <= 0 {
        None
    } else {
        match peripheral_at(ps, base, n - 1) {
            Some(p) => Some(p),
            None => if ps[n - 1].base_address == base { Some(ps[n - 1]) } else { None },
        }
    }
}

/// The name under which an SPI display at `spi_base` is routed: that of the peripheral at
/// that base, in upper case, else "SPI" and the low 16 bits of the base in decimal.
pub open spec fn spec_spi_bus_name(ps: Seq<PeripheralSpec>, spi_base: u64) -> Seq<char> {
    match peripheral_at(ps, spi_base, ps.len() as int) {
        Some(p) => p.name@.map_values(|c: char| ascii_upper(c)),
        None => "SPI"@ + decimal((spi_base & 0xFFFF) as nat),
    }
}

/// The SPI peripheral an SPI display at `spi_base` is attached to (see `spec_spi_bus_name`).
pub fn spi_bus_name(peripherals: &[PeripheralSpec], spi_base: u64) -> (r: String)
    ensures
        r@ == spec_spi_bus_name(peripherals@, spi_base),
{
    let mut i: usize = 0;
    while i < peripherals.len()
        invariant
            i <= peripherals@.len(),
            peripheral_at(peripherals@, spi_base, i as int) is None,
        decreases peripherals@.len() - i,
    {
        if peripherals[i].base_address == spi_base {
            proof {
                lemma_found_stays(peripherals@, spi_base, i + 1, peripherals@.len() as int);
            }
            return to_upper(peripherals[i].name.as_str());
        }
        i = i + 1;
    }
    let r = decimal64_message("SPI", spi_base & 0xFFFF, "");
    proof {
        reveal_strlit("");
        assert(r@ =~= "SPI"@ + decimal((spi_base & 0xFFFF) as nat));
    }
    r
}

proof fn lemma_found_stays(ps: Seq<PeripheralSpec>, base: u64, k: int, n: int)
    requires
        0 < k <= n,
        peripheral_at(ps, base, k) is Some,
    ensures
        peripheral_at(ps, base, n) == peripheral_at(ps, base, k),
    decreases n - k,
{
    if k < n {
        lemma_found_stays(ps, base, k, n - 1);
    }
}

/// The id of an LED: the one given, else its port in upper case and its pin number.
pub open spec fn spec_led_id(id: Option<Seq<char>>, port: Seq<char>, pin: u8) -> Seq<char> {
    match id {
        Some(i) => i,
        None => port.map_values(|c: char| ascii_upper(c)) + decimal(pin as nat),
    }
}

/// The id of an LED (see `spec_led_id`).
pub fn led_id(id: &Option<String>, pin: &PinMapping) -> (r: String)
    ensures
        r@ == spec_led_id(
            match id {
                Some(i) => Some(i@),
                None => None,
            },
            pin.port@,
            pin.pin,
        ),
{
    match id {
        Some(i) => i.clone(),
        None => {
            let port = to_upper(pin.port.as_str());
            let r = decimal_message(port.as_str(), pin.pin, "");
            proof {
                reveal_strlit("");
                assert(r@ =~= pin.port@.map_values(|c: char| ascii_upper(c)) + decimal(pin.pin as nat));
            }
            r
        },
    }
}

/// The character of the 6-bit value `v` in the standard base64 alphabet (RFC 4648).
pub open spec fn base64_digit(v: int) -> char {
    "ABCDEFGHIJKLMNOPQRSTUVWXYZabcdefghijklmnopqrstuvwxyz0123456789+/"@[v]
}

/// The standard base64 text of `bytes` (RFC 4648): each group of three bytes gives four
/// characters of six bits each, most significant first; a last group of one or two bytes is
/// padded with zero bits and completed with `=`.
pub open spec fn base64_standard(bytes: Seq<u8>) -> Seq<char>
    decreases bytes.len(),
{
    if bytes.len() == 0 {
        Seq::empty()
    } else if bytes.len() == 1 {
        let x = bytes[0] as int;
        seq![base64_digit(x / 4), base64_digit((x % 4) * 16), '=', '=']
    } else if bytes.len() == 2 {
        let x = bytes[0] as int;
        let y = bytes[1] as int;
        seq![base64_digit(x / 4), base64_digit((x % 4) * 16 + y / 16), base64_digit((y % 16) * 4), '=']
    } else {
        let x = bytes[0] as int;
        let y = bytes[1] as int;
        let z = bytes[2] as int;
        seq![
            base64_digit(x / 4),
            base64_digit((x % 4) * 16 + y / 16),
            base64_digit((y % 16) * 4 + z / 64),
            base64_digit(z % 64),
        ] + base64_standard(bytes.subrange(3, bytes.len() as int))
    }
}

/// `base64::engine::general_purpose::STANDARD.encode(bytes)`. The contract claims that the
/// text is the standard padded base64 of the bytes (`base64_standard`) and has four
/// characters for every started group of three bytes; the call panics when that length does
/// not fit in `usize`, which `requires` rules out.
#[verifier::external_body]
fn base64_encode(bytes: &[u8]) -> (s: String)
    requires
        4 * ((bytes@.len() + 2) / 3) <= usize::MAX,
    ensures
        s@ == base64_standard(bytes@),
        s@.len() == 4 * ((bytes@.len() + 2) / 3),
{
    base64::engine::general_purpose::STANDARD.encode(bytes)
}

/// The bytes of a frame of packed pixels: each pixel's four bytes, least significant first.
pub open spec fn frame_bytes(frame: Seq<u32>) -> Seq<u8> {
    Seq::new(4 * frame.len(), |i: int| ((frame[i / 4] >> ((8 * (i % 4)) as u32)) & 0xFF) as u8)
}

/// A display frame as base64 text of its pixels' little-endian bytes, as a front end receives
/// it.
pub fn encode_rgba_frame_base64(frame: &[u32]) -> (s: String)
    requires
        4 * ((4 * frame@.len() + 2) / 3) <= usize::MAX,
    ensures
        s@ == base64_standard(frame_bytes(frame@)),
{
    assert(4 * frame@.len() <= 4 * ((4 * frame@.len() + 2) / 3)) by (nonlinear_arith);
    let mut bytes: Vec<u8> = Vec::new();
    let mut i: usize = 0;
    while i < frame.len()
        invariant
            i <= frame@.len(),
            4 * frame@.len() <= usize::MAX,
            bytes@ =~= frame_bytes(frame@).take(4 * i),
        decreases frame@.len() - i,
    {
        let px = frame[i];
        let ghost before = bytes@;
        bytes.push((px & 0xFF) as u8);
        bytes.push(((px >> 8u32) & 0xFF) as u8);
        bytes.push(((px >> 16u32) & 0xFF) as u8);
        bytes.push(((px >> 24u32) & 0xFF) as u8);
        proof {
            let fb = frame_bytes(frame@);
            assert(px >> 0u32 == px) by (bit_vector);
            assert forall|k: int| 0 <= k < 4 implies #[trigger] fb[4 * i + k] == bytes@[4 * i + k] by {
                assert((4 * i + k) / 4 == i);
                assert((4 * i + k) % 4 == k);
            }
            assert(bytes@ =~= fb.take(4 * (i + 1)));
        }
        i = i + 1;
    }
    assert(frame_bytes(frame@).take(4 * frame@.len() as int) =~= frame_bytes(frame@));
    base64_encode(bytes.as_slice())
}

/// The bindings a bus context is built with, and the UARTs named on the way.
pub struct BusBindings {
    pub spi_names: Seq<Seq<char>>,
    pub spi_cs: Seq<Option<GpioPin>>,
    pub spi_dc: Seq<Option<GpioPin>>,
    pub i2c_names: Seq<Seq<char>>,
    pub fsmc_ranges: Seq<(u64, u64)>,
    pub gpio_pins: Seq<GpioPin>,
    pub uarts: Seq<Seq<char>>,
}

/// The bindings of `ctx`, with the UARTs `uarts`.
pub open spec fn bindings_of(ctx: BusContext, uarts: Seq<Seq<char>>) -> BusBindings {
    BusBindings {
        spi_names: ctx.spi_names(),
        spi_cs: ctx.spi_cs_pins(),
        spi_dc: ctx.spi_dc_pins(),
        i2c_names: ctx.i2c_names(),
        fsmc_ranges: ctx.fsmc_ranges(),
        gpio_pins: ctx.gpio_pins(),
        uarts,
    }
}

/// The GPIO pin of a board pin: the first character of its port in upper case (`A` when the
/// port is empty) and its number.
pub open spec fn gpio_pin_of(p: PinMapping) -> GpioPin {
    GpioPin { port: ascii_upper(if p.port@.len() > 0 { p.port@[0] } else { 'A' }), pin: p.pin }
}

/// Size of the address window of an FSMC display.
pub const FSMC_WINDOW: u64 = 0x0100_0000;

/// The bindings after one attached peripheral: an SPI display is routed under its SPI
/// peripheral's name with its chip-select and data/command pins; an FSMC display gets a window
/// at its base; an LED listens to its pin; an SSD1306 is routed under its I2C peripheral's
/// name in upper case; a UART is noted; anything else binds nothing.
pub open spec fn config_step(b: BusBindings, cfg: PeripheralConfig, ps: Seq<PeripheralSpec>) -> BusBindings {
    match cfg {
        PeripheralConfig::St7789Spi { spi_base, cs, dc, .. } => BusBindings {
            spi_names: b.spi_names.push(spec_spi_bus_name(ps, spi_base)),
            spi_cs: b.spi_cs.push(Some(gpio_pin_of(cs))),
            spi_dc: b.spi_dc.push(Some(gpio_pin_of(dc))),
            ..b
        },
        PeripheralConfig::St7789Fsmc { fsmc_base, .. } => BusBindings {
            fsmc_ranges: b.fsmc_ranges.push((fsmc_base, FSMC_WINDOW)),
            ..b
        },
        PeripheralConfig::Led { pin, .. } => BusBindings { gpio_pins: b.gpio_pins.push(gpio_pin_of(pin)), ..b },
        PeripheralConfig::Ssd1306I2c { i2c, .. } => BusBindings {
            i2c_names: b.i2c_names.push(i2c@.map_values(|c: char| ascii_upper(c))),
            ..b
        },
        PeripheralConfig::Uart { usart, .. } => BusBindings { uarts: b.uarts.push(usart@), ..b },
        _ => b,
    }
}

/// The bindings after the first `n` peripherals of `cfgs`, from none.
pub open spec fn configured(cfgs: Seq<PeripheralConfig>, ps: Seq<PeripheralSpec>, n: int) -> BusBindings
    decreases n,
{
    if n <= 0 {
        BusBindings {
            spi_names: Seq::empty(),
            spi_cs: Seq::empty(),
            spi_dc: Seq::empty(),
            i2c_names: Seq::empty(),
            fsmc_ranges: Seq::empty(),
            gpio_pins: Seq::empty(),
            uarts: Seq::empty(),
        }
    } else {
        config_step(configured(cfgs, ps, n - 1), cfgs[n - 1], ps)
    }
}

/// The UART name a peripheral adds to the bindings.
pub open spec fn uart_named(cfg: PeripheralConfig) -> Seq<Seq<char>> {
    match cfg {
        PeripheralConfig::Uart { usart, .. } => seq![usart@],
        _ => Seq::empty(),
    }
}

/// A step adds to the UARTs only what the peripheral names, and does the same whatever UARTs
/// came before.
proof fn lemma_step_uarts(b: BusBindings, u: Seq<Seq<char>>, cfg: PeripheralConfig, ps: Seq<PeripheralSpec>)
    ensures
        config_step(BusBindings { uarts: u, ..b }, cfg, ps) == (BusBindings {
            uarts: u + uart_named(cfg),
            ..config_step(b, cfg, ps)
        }),
{
    match cfg {
        PeripheralConfig::Uart { usart, .. } => {
            assert(u.push(usart@) =~= u + seq![usart@]);
        },
        _ => {
            assert(u =~= u + Seq::<Seq<char>>::empty());
        },
    }
}

/// The GPIO pin of a board pin (see `gpio_pin_of`).
fn pin_of(p: &PinMapping) -> (r: GpioPin)
    ensures
        r == gpio_pin_of(*p),
{
    let c = if p.port.unicode_len() > 0 { p.port.get_char(0) } else { 'A' };
    GpioPin::new(c, p.pin)
}

/// Attaches one board peripheral to `ctx` (see `config_step`): its device is built and its
/// bus registered; an LED reports to `observer` when one is given. A UART's name is returned.
pub fn register_peripheral(
    ctx: &mut BusContext,
    cfg: &PeripheralConfig,
    peripherals: &[PeripheralSpec],
    observer: Option<Box<dyn LedObserver>>,
) -> (r: Option<String>)
    requires
        old(ctx).wf(),
    ensures
        final(ctx).wf(),
        bindings_of(*final(ctx), match r {
            Some(u) => seq![u@],
            None => Seq::empty(),
        }) == config_step(bindings_of(*old(ctx), Seq::empty()), *cfg, peripherals@),
{
    match cfg {
        PeripheralConfig::St7789Spi { width, height, spi_base, cs, dc, res } => {
            let device = St7789::new(
                *width,
                *height,
                *spi_base,
                cs.clone(),
                dc.clone(),
                res.clone(),
                String::new(),
                false,
                true,
            );
            let name = spi_bus_name(peripherals, *spi_base);
            let cs_pin = pin_of(cs);
            let dc_pin = pin_of(dc);
            ctx.register_spi(name, SpiBus::new(Box::new(device)), Some(cs_pin), Some(dc_pin));
            None
        },
        PeripheralConfig::St7789Fsmc { width, height, fsmc_base } => {
            let a = PinMapping { port: "A".to_string(), pin: 0 };
            let b = PinMapping { port: "A".to_string(), pin: 0 };
            let device = St7789::new(*width, *height, *fsmc_base, a, b, None, String::new(), false, true);
            ctx.register_fsmc(*fsmc_base, FSMC_WINDOW, FsmcBus::new(Box::new(device)));
            None
        },
        PeripheralConfig::Led { id, pin, active_low } => {
            let gpio = pin_of(pin);
            let led = Led::new(led_id(id, pin), pin.clone(), *active_low);
            let led = match observer {
                Some(o) => led.with_callback(o),
                None => led,
            };
            ctx.register_gpio(gpio, Box::new(led));
            None
        },
        PeripheralConfig::Ssd1306I2c { width, height, i2c, address } => {
            let (w, h) = normalize_ssd1306_size(*width, *height);
            let name = to_upper(i2c.as_str());
            let device = Ssd1306I2c::new(w, h, i2c.clone(), *address);
            ctx.register_i2c(name, I2cBus::new(Box::new(device)));
            None
        },
        PeripheralConfig::Uart { usart, .. } => {
            Some(usart.clone())
        },
        _ => None,
    }
}

/// Builds the bus context of a board's attached peripherals, in order (see `configured`),
/// with no LED observers; the UARTs named are returned beside it.
pub fn build_bus_context(cfgs: &[PeripheralConfig], peripherals: &[PeripheralSpec]) -> (r: (BusContext, Vec<String>))
    ensures
        r.0.wf(),
        bindings_of(r.0, r.1@.map_values(|u: String| u@)) == configured(cfgs@, peripherals@, cfgs@.len() as int),
{
    let mut ctx = BusContext::new();
    let mut uarts: Vec<String> = Vec::new();
    let mut i: usize = 0;
    assert(ctx.spi_names() =~= Seq::empty() && ctx.spi_cs_pins() =~= Seq::empty() && ctx.spi_dc_pins() =~= Seq::empty());
    assert(ctx.i2c_names() =~= Seq::empty() && ctx.fsmc_ranges() =~= Seq::empty() && ctx.gpio_pins() =~= Seq::empty());
    assert(uarts@.map_values(|u: String| u@) =~= Seq::empty());
    assert(bindings_of(ctx, uarts@.map_values(|u: String| u@)) == configured(cfgs@, peripherals@, 0));
    while i < cfgs.len()
        invariant
            i <= cfgs@.len(),
            ctx.wf(),
            bindings_of(ctx, uarts@.map_values(|u: String| u@)) == configured(cfgs@, peripherals@, i as int),
        decreases cfgs@.len() - i,
    {
        let ghost before = ctx;
        let ghost u0 = uarts@.map_values(|u: String| u@);
        let named = register_peripheral(&mut ctx, &cfgs[i], peripherals, None);
        let ghost rs = match &named {
            Some(u) => seq![u@],
            None => Seq::<Seq<char>>::empty(),
        };
        match named {
            Some(u) => {
                uarts.push(u);
            },
            None => {},
        }
        proof {
            assert(uarts@.map_values(|u: String| u@) =~= u0 + rs);
            let e = bindings_of(before, Seq::empty());
            lemma_step_uarts(e, u0, cfgs@[i as int], peripherals@);
            assert(bindings_of(before, u0) == (BusBindings { uarts: u0, ..e }));
            assert(rs == uart_named(cfgs@[i as int]));
            assert(configured(cfgs@, peripherals@, i + 1) == config_step(configured(cfgs@, peripherals@, i as int), cfgs@[i as int], peripherals@));
        }
        i = i + 1;
    }
    (ctx, uarts)
}

} // verus!
