use rsemu::clock::RccClockModel;
use rsemu::machine::meta::MmioWriteEvent;

fn ev(peripheral: &str, register: &str, addr: u64, width: u8, value: u32) -> MmioWriteEvent {
    MmioWriteEvent { peripheral: peripheral.to_string(), register: register.to_string(), addr, width, value }
}

#[test]
fn f1_pll_at_72_mhz() {
    let mut m = RccClockModel::new(8_000_000, false);
    // SW = PLL, PLLSRC = HSE, PLLMUL = x9 (0b0111)
    let cfgr = 0b10 | (1 << 16) | (0b0111 << 18);
    assert_eq!(m.apply_mmio(&ev("RCC", "CFGR", 0x4002_1004, 4, cfgr)), Some(72_000_000));
    assert_eq!(m.core_clock(), 72_000_000);
    // the same value again changes nothing
    assert_eq!(m.apply_mmio(&ev("RCC", "cfgr", 0x4002_1004, 4, cfgr)), None);
}

#[test]
fn f407_pll_at_168_mhz() {
    let mut m = RccClockModel::new(16_000_000, true);
    // PLLSRC = HSE, M = 8, N = 336, P = 2
    let pll = 8 | (336 << 6) | (1 << 22);
    assert_eq!(m.apply_mmio(&ev("RCC", "PLLCFGR", 0x4002_3804, 4, pll)), None);
    // CR: HSI, HSE and PLL ready
    assert_eq!(m.apply_mmio(&ev("RCC", "CR", 0x4002_3800, 4, (1 << 1) | (1 << 17) | (1 << 25))), None);
    assert_eq!(m.apply_mmio(&ev("RCC", "CFGR", 0x4002_3808, 4, 0b10)), Some(168_000_000));
}

#[test]
fn byte_write_merges_one_lane() {
    let mut m = RccClockModel::new(8_000_000, false);
    // a byte write to the third byte of CFGR sets PLLMUL bits only
    assert_eq!(m.apply_mmio(&ev("RCC", "CFGR", 0x4002_1006, 1, 0x1C)), None);
    // now select the PLL (HSI/2 = 4 MHz, PLLMUL = 0b0111 -> x9)
    assert_eq!(m.apply_mmio(&ev("RCC", "CFGR", 0x4002_1004, 1, 0x02)), Some(36_000_000));
}

#[test]
fn systick_reload_hint() {
    let mut m = RccClockModel::new(8_000_000, false);
    assert_eq!(m.apply_mmio(&ev("STK", "LOAD", 0xE000_E014, 4, 71_999)), Some(72_000_000));
    // too small a reload is no hint
    assert_eq!(m.apply_mmio(&ev("stk", "load", 0xE000_E014, 4, 999)), None);
    // a slower hint does not lower the clock
    assert_eq!(m.apply_mmio(&ev("STK", "LOAD", 0xE000_E014, 4, 59_999)), None);
    assert_eq!(m.core_clock(), 72_000_000);
    // other peripherals are ignored, and the RCC name is compared exactly
    assert_eq!(m.apply_mmio(&ev("rcc", "CFGR", 0x4002_1004, 4, 0)), None);
}

#[test]
fn new_model_clock_is_at_least_one() {
    assert_eq!(RccClockModel::new(0, true).core_clock(), 1);
}
