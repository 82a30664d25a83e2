//! Properties of the library that relate several operations, proved over the specifications
//! the operations' contracts use.
use crate::bus::bus_context::{count_named, spec_dispatch_stats, writes_reg};
use crate::bus::gpio::{deliveries, mask_deliveries, GpioPin};
use crate::bus::i2c_bus::{I2cBus, I2cEvent, I2cPhase};
use crate::bus::spi_bus::SpiBus;
use crate::bus::traits::SystemBus;
use crate::clock::{rcc_step, RccState};
use crate::cpu::armv7em::{CortexM4, m4_exc_return_post, m4_popped, m4_push, m4_unstacked, valid_stack_addr};
use crate::cpu::armv7m_legacy::{
    adv, carry, core_exception, dp16, exc_return_post, exception_frame, exception_push, frame_restore, nz, overflow,
    read_words_post, step16_post, thumb, CortexM3,
};
use crate::bits::{lemma_small_masks, lemma_small_masks32, with_bit};
use crate::machine::meta::MmioWriteEvent;
use crate::image::{elf_segments, load_segment, spec_parse_elf32};
use crate::memory::{le16, le32, MemoryBlock};
use crate::peripherals::display::{be16, command_regs, command_write_step, data_step, pixel_index, ramwr_post, St7789Core};
use crate::peripherals::ssd1306::{advance, command_step, AddressingMode, Ssd1306Regs};
use crate::prefs::{remembered, without, MAX_RECENT_PROJECTS};
use crate::svd::parser::{last_named, lemma_last_named_bounds, resolve_derived};
use crate::target::RegisterValueSet;
use crate::text::eq_ignore_case;
use vstd::prelude::*;

verus! {

/// The clock model reports a new core clock exactly when the core clock changed, and then
/// reports the new value.
pub proof fn law_clock_change_is_reported(s: RccState, e: MmioWriteEvent)
    ensures
        ({
            let (t, r) = rcc_step(s, e);
            &&& r matches Some(hz) ==> hz == t.core_clock_hz && hz != s.core_clock_hz
            &&& r is None ==> t.core_clock_hz == s.core_clock_hz
        }),
{
}

/// Every write keeps the model's core clock at 1 Hz or more.
pub proof fn law_clock_stays_positive(s: RccState, e: MmioWriteEvent)
    requires
        s.core_clock_hz >= 1,
    ensures
        rcc_step(s, e).0.core_clock_hz >= 1,
{
}

/// A SysTick reload never lowers the core clock.
pub proof fn law_systick_hint_never_slows(s: RccState, e: MmioWriteEvent)
    requires
        eq_ignore_case(e.peripheral@, "STK"@),
        eq_ignore_case(e.register@, "LOAD"@),
    ensures
        rcc_step(s, e).0.core_clock_hz >= s.core_clock_hz,
{
}

/// A firmware read of SPI_DR after a write gives the byte the slave answered to that write,
/// once: the next read finds nothing latched.
pub proof fn law_spi_read_gives_reply_of_write(
    written: SpiBus,
    reply: u8,
    first: Option<u8>,
    after_first: SpiBus,
    second: Option<u8>,
    after_second: SpiBus,
)
    requires
        SpiBus::dr_write_post(written, reply),
        SpiBus::dr_read_post(written, first, after_first),
        SpiBus::dr_read_post(after_first, second, after_second),
    ensures
        first == Some(reply),
        second is None,
{
}

/// A word written to a block reads back unchanged.
pub proof fn law_word_write_then_read(before: MemoryBlock, after: MemoryBlock, addr: u64, value: u32)
    requires
        before.spec_contains(addr),
        addr + 3 < before.spec_end(),
        after.spec_base() == before.spec_base(),
        after.spec_data() == before.spec_data().update(addr - before.spec_base(), value as u8).update(
            addr - before.spec_base() + 1,
            (value >> 8) as u8,
        ).update(addr - before.spec_base() + 2, (value >> 16) as u8).update(
            addr - before.spec_base() + 3,
            (value >> 24) as u8,
        ),
    ensures
        after.spec_contains(addr),
        addr + 3 < after.spec_end(),
        le32(after.spec_data(), addr - after.spec_base()) == value,
{
    let o = addr - before.spec_base();
    let d = after.spec_data();
    assert(d[o] == value as u8 && d[o + 1] == (value >> 8) as u8 && d[o + 2] == (value >> 16) as u8 && d[o + 3] == (
    value >> 24) as u8);
    let b0 = d[o];
    let b1 = d[o + 1];
    let b2 = d[o + 2];
    let b3 = d[o + 3];
    assert((b0 as u32) | ((b1 as u32) << 8) | ((b2 as u32) << 16) | ((b3 as u32) << 24) == value) by (bit_vector)
        requires
            b0 == value as u8,
            b1 == (value >> 8) as u8,
            b2 == (value >> 16) as u8,
            b3 == (value >> 24) as u8,
    ;
}

/// A register written through the value set reads back as the byte written.
pub proof fn law_register_write_then_read(before: RegisterValueSet, after: RegisterValueSet, addr: u64, value: u8)
    requires
        before.view_map().contains_key(addr),
        after.view_map() == before.view_map().insert(addr, value as u64),
    ensures
        after.view_map().contains_key(addr),
        after.view_map()[addr] as u8 == value,
{
}

/// With no command pending, the commands "set page `p`", "set low column nibble" and "set
/// high column nibble" put the SSD1306 cursor at page `p`, column `c`, when both lie in the
/// addressing window and the column after the low nibble does too.
pub proof fn law_ssd1306_addressing_moves_cursor(r: Ssd1306Regs, width: u16, p: u8, c: u8)
    requires
        r.pending_left == 0,
        p <= 7,
        p <= r.page_end,
        c <= r.col_end,
        (r.col & 0xF0) | (c & 0x0F) <= r.col_end,
    ensures
        ({
            let r1 = command_step(r, width, (0xB0 | p) as u8);
            let r2 = command_step(r1, width, c & 0x0F);
            let r3 = command_step(r2, width, (0x10 | (c >> 4u8)) as u8);
            r3.page == p && r3.col == c && r3.pending_left == 0
        }),
{
    let b0 = (0xB0 | p) as u8;
    let lo = c & 0x0F;
    let hi = (0x10 | (c >> 4u8)) as u8;
    let col0 = r.col;
    let col2 = (col0 & 0xF0) | (lo & 0x0F);
    assert(0xB0 <= b0 <= 0xB7 && b0 & 0x0F == p && lo <= 0x0F && lo & 0x0F == lo && 0x10 <= hi <= 0x1F && ((col2
        & 0x0F) | ((hi & 0x0F) << 4u8)) as u8 == c) by (bit_vector)
        requires
            p <= 7,
            b0 == (0xB0 | p) as u8,
            lo == c & 0x0F,
            col2 == (col0 & 0xF0) | (lo & 0x0F),
            hi == (0x10 | (c >> 4u8)) as u8,
    ;
    let r1 = command_step(r, width, b0);
    assert(r1.col == r.col && r1.col_end == r.col_end && r1.page == p && r1.pending_left == 0);
    let r2 = command_step(r1, width, lo);
    assert(r2.col == col2);
}

/// After RAMWR (0x2C), the first two data bytes form one RGB565 pixel, stored at the window's
/// origin.
pub proof fn law_st7789_first_pixel_at_window_origin(s0: St7789Core, s1: St7789Core, hi: u8, s2: St7789Core, lo: u8, s3: St7789Core)
    requires
        s1.regs() == command_regs(s0.regs(), 0x2C),
        s1.framebuffer == s0.framebuffer,
        s1.width == s0.width,
        s1.height == s0.height,
        ramwr_post(s1, hi, s2),
        s2.width == s1.width,
        s2.height == s1.height,
        ramwr_post(s2, lo, s3),
    ensures
        ({
            let idx = pixel_index(command_regs(s0.regs(), 0x2C), s0.width, s0.height);
            idx < s0.framebuffer@.len() ==> s3.framebuffer@ == s0.framebuffer@.update(idx, be16(hi, lo))
        }),
{
    assert(s2.regs().cursor_x == s1.regs().cursor_x && s2.regs().cursor_y == s1.regs().cursor_y);
}

/// An SPI data-register write to a peripheral that has an SPI binding is routed and counts as
/// display activity.
pub proof fn law_spi_write_reaches_bound_bus(
    spi_names: Seq<Seq<char>>,
    i2c_names: Seq<Seq<char>>,
    ranges: Seq<(u64, u64)>,
    e: MmioWriteEvent,
    k: int,
)
    requires
        writes_reg(e, "SPI"@, "DR"@),
        0 <= k < spi_names.len(),
        eq_ignore_case(spi_names[k], e.peripheral@),
    ensures
        spec_dispatch_stats(spi_names, i2c_names, ranges, e).0,
        spec_dispatch_stats(spi_names, i2c_names, ranges, e).1 >= 1,
{
    lemma_count_named_positive(spi_names, e.peripheral@, k);
}

proof fn lemma_count_named_positive(names: Seq<Seq<char>>, p: Seq<char>, k: int)
    requires
        0 <= k < names.len(),
        eq_ignore_case(names[k], p),
    ensures
        count_named(names, p) >= 1,
    decreases names.len(),
{
    if k < names.len() - 1 {
        lemma_count_named_positive(names.drop_last(), p, k);
    }
}

/// After a project is remembered and then forgotten, it is not among the recent projects.
pub proof fn law_forgotten_project_is_gone(recent: Seq<Seq<char>>, p: Seq<char>)
    ensures
        !without(remembered(recent, p), p).contains(p),
{
    lemma_without_drops(remembered(recent, p), p);
}

proof fn lemma_without_drops(s: Seq<Seq<char>>, p: Seq<char>)
    ensures
        !without(s, p).contains(p),
    decreases s.len(),
{
    if s.len() > 0 {
        lemma_without_drops(s.drop_last(), p);
        if s.last() != p {
            let w = without(s.drop_last(), p);
            assert forall|i: int| 0 <= i < w.push(s.last()).len() implies w.push(s.last())[i] != p by {
                if i < w.len() {
                    assert(w[i] != p) by {
                        if w[i] == p {
                            assert(w.contains(p));
                        }
                    }
                }
            }
        }
    }
}

/// No path occurs twice in `s`.
pub open spec fn no_repeats(s: Seq<Seq<char>>) -> bool {
    forall|i: int, j: int| 0 <= i < j < s.len() ==> s[i] != s[j]
}

/// The recent projects stay free of repeats: after opening `p`, `p` comes first, no path occurs
/// twice and at most `MAX_RECENT_PROJECTS` are kept.
pub proof fn law_recent_projects_stay_unique(recent: Seq<Seq<char>>, p: Seq<char>)
    requires
        no_repeats(recent),
    ensures
        remembered(recent, p)[0] == p,
        no_repeats(remembered(recent, p)),
        remembered(recent, p).len() <= MAX_RECENT_PROJECTS,
{
    lemma_without_drops(recent, p);
    lemma_without_keeps_no_repeats(recent, p);
    let w = without(recent, p);
    let all = seq![p] + w;
    assert forall|i: int, j: int| 0 <= i < j < all.len() implies all[i] != all[j] by {
        if i == 0 {
            assert(all[j] == w[j - 1]);
            if w[j - 1] == p {
                assert(w.contains(p));
            }
        } else {
            assert(all[i] == w[i - 1] && all[j] == w[j - 1]);
        }
    }
}

proof fn lemma_without_within(s: Seq<Seq<char>>, p: Seq<char>, x: Seq<char>)
    requires
        without(s, p).contains(x),
    ensures
        s.contains(x),
    decreases s.len(),
{
    if s.len() > 0 {
        let t = s.drop_last();
        let w = without(t, p);
        let k = choose|k: int| 0 <= k < without(s, p).len() && without(s, p)[k] == x;
        if k < w.len() {
            assert(w[k] == x);
            assert(w.contains(x));
            lemma_without_within(t, p, x);
            let m = choose|m: int| 0 <= m < t.len() && t[m] == x;
            assert(s[m] == x);
        } else {
            assert(s[s.len() - 1] == x);
        }
    }
}

proof fn lemma_without_keeps_no_repeats(s: Seq<Seq<char>>, p: Seq<char>)
    requires
        no_repeats(s),
    ensures
        no_repeats(without(s, p)),
    decreases s.len(),
{
    if s.len() > 0 {
        let t = s.drop_last();
        assert(no_repeats(t)) by {
            assert forall|i: int, j: int| 0 <= i < j < t.len() implies t[i] != t[j] by {
                assert(t[i] == s[i] && t[j] == s[j]);
            }
        }
        lemma_without_keeps_no_repeats(t, p);
        let w = without(t, p);
        if s.last() != p {
            assert(!w.contains(s.last())) by {
                if w.contains(s.last()) {
                    lemma_without_within(t, p, s.last());
                    let m = choose|m: int| 0 <= m < t.len() && t[m] == s.last();
                    assert(s[m] == s[s.len() - 1]);
                }
            }
            let w2 = w.push(s.last());
            assert forall|i: int, j: int| 0 <= i < j < w2.len() implies w2[i] != w2[j] by {
                if j == w.len() {
                    assert(w2[i] == w[i]);
                    if w[i] == s.last() {
                        assert(w.contains(s.last()));
                    }
                } else {
                    assert(w2[i] == w[i] && w2[j] == w[j]);
                }
            }
        }
    }
}

/// Exception return undoes exception entry: when an exception taken in thread mode returns
/// with LR and the stack pointers as entry left them, and the stack still holds the frame that
/// entry pushed, R0-R3, R12, LR, the stack pointers and the stack in use come back, PC comes
/// back with bit 0 clear, and no exception is active.
pub proof fn law_m4_return_undoes_entry<B: SystemBus>(
    s0: CortexM4,
    b0: B,
    n: u16,
    h: u32,
    s1: CortexM4,
    b1: B,
    s3: CortexM4,
    b3: B,
    s4: CortexM4,
    b4: B,
)
    requires
        s0.current_exception == 0,
        m4_push(s0, b0, n, h, Some(true), s1, b1),
        s3.registers@[14] == s1.registers@[14],
        s3.msp == s1.msp,
        s3.psp == s1.psp,
        s3.control == s1.control,
        forall|sp: u32, v: Seq<u32>|
            #[trigger] read_words_post(b3, sp, 8, Some(v), b4) ==> v == exception_frame(s0.registers@, s0.xpsr),
        m4_exc_return_post(s3, b3, Some(true), s4, b4),
    ensures
        s4.registers@[0] == s0.registers@[0],
        s4.registers@[1] == s0.registers@[1],
        s4.registers@[2] == s0.registers@[2],
        s4.registers@[3] == s0.registers@[3],
        s4.registers@[12] == s0.registers@[12],
        s4.registers@[14] == s0.registers@[14],
        s4.registers@[15] == s0.registers@[15] & !1u32,
        s4.registers@[13] == (if s0.control & 2 != 0 && valid_stack_addr(s0.psp) {
            s0.psp
        } else {
            s0.msp
        }),
        s4.msp == s0.msp,
        s4.psp == s0.psp,
        s4.current_exception == 0,
{
    let use_psp = s0.control & 2 != 0 && valid_stack_addr(s0.psp);
    let active = if use_psp { s0.psp } else { s0.msp };
    let next = active.wrapping_sub(32);
    let lr: u32 = if use_psp { 0xFFFF_FFFD } else { 0xFFFF_FFF9 };
    assert(s1.registers@[14] == lr);
    assert(lr & 0xFFFF_FFE0 == 0xFFFF_FFE0 && lr & 0x10 != 0 && lr & 8 != 0) by (bit_vector)
        requires lr == 0xFFFF_FFFDu32 || lr == 0xFFFF_FFF9u32;
    assert(lr & 4 != 0 <==> use_psp) by {
        assert(0xFFFF_FFFDu32 & 4 != 0 && 0xFFFF_FFF9u32 & 4 == 0) by (bit_vector);
    }
    let banked = if use_psp { s3.psp } else { s3.msp };
    assert(banked == next);
    let v = choose|v: Seq<u32>| #[trigger] read_words_post(b3, next, 8, Some(v), b4) && m4_unstacked(s3, lr, next, v, s4);
    assert(m4_popped(s3, b3, lr, next, s4, b4));
    assert(read_words_post(b3, next, 8, Some(v), b4));
    assert(v == exception_frame(s0.registers@, s0.xpsr));
    assert(next.wrapping_add(32) == active);
    let pc = s0.registers@[15];
    assert((pc | 1) & !1u32 == pc & !1u32) by (bit_vector);
}

/// Exception return undoes exception entry on the Cortex-M3 core: when an exception was taken
/// and the return finds SP where entry left it and the frame that entry pushed still on the
/// stack, R0-R3, R12, LR and SP come back, PC comes back with bit 0 clear, and xPSR is the one
/// before entry with the Thumb bit set.
pub proof fn law_m3_return_undoes_entry<B: SystemBus>(
    s0: CortexM3,
    b0: B,
    vtb: u64,
    n: u16,
    s1: CortexM3,
    b1: B,
    s3: CortexM3,
    b3: B,
    s4: CortexM3,
    b4: B,
)
    requires
        core_exception(s0, b0, vtb, n, Some(true), s1, b1),
        s3.registers@[13] == s1.registers@[13],
        forall|v: Seq<u32>|
            #[trigger] read_words_post(b3, s1.registers@[13], 8, Some(v), b4) ==> v == exception_frame(
                s0.registers@,
                s0.xpsr,
            ),
        exc_return_post(s3.registers@, s3.xpsr, b3, Some(true), s4.registers@, s4.xpsr, b4),
    ensures
        s1.registers@[13] == s0.registers@[13].wrapping_sub(32),
        s1.registers@[14] == 0xFFFF_FFF9u32,
        s4.registers@[0] == s0.registers@[0],
        s4.registers@[1] == s0.registers@[1],
        s4.registers@[2] == s0.registers@[2],
        s4.registers@[3] == s0.registers@[3],
        s4.registers@[12] == s0.registers@[12],
        s4.registers@[14] == s0.registers@[14],
        s4.registers@[13] == s0.registers@[13],
        s4.registers@[15] == s0.registers@[15] & !1u32,
        s4.xpsr == thumb(s0.xpsr, true),
{
    let r0 = s0.registers@;
    let sp = r0[13].wrapping_sub(32);
    assert(n != 0);
    let va = (vtb + (n as u64) * 4) as u64;
    let (h, bh) = choose|h: u32, bh: B| #[trigger] b0.read32_post(va, Some(h), bh) && if h == 0 || h == 0xFFFF_FFFF {
        Some(true) == Some(false) && b1 == bh && s1 == s0
    } else {
        exception_push(s0, bh, n, h, Some(true), s1, b1)
    };
    assert(s1.registers@ == r0.update(13, sp).update(14, 0xFFFF_FFF9).update(15, h & !1u32));
    let v = choose|v: Seq<u32>|
        #[trigger] read_words_post(b3, s3.registers@[13], 8, Some(v), b4) && s4.registers@ == frame_restore(
            s3.registers@,
            v,
        ) && s4.xpsr == thumb(v[7], v[6] & 1 == 1);
    assert(v == exception_frame(r0, s0.xpsr));
    assert(sp.wrapping_add(32) == r0[13]);
    let pc = r0[15];
    assert((pc | 1) & !1u32 == pc & !1u32 && (pc | 1) & 1 == 1) by (bit_vector);
}

/// An I2C bus with no transaction started passes no data byte to its slave and stays idle.
pub proof fn law_i2c_idle_bus_ignores_data(b0: I2cBus, x: u8, b1: I2cBus)
    requires
        b0.spec_phase() == I2cPhase::Idle,
        I2cBus::dr_write_step(b0, x, b1),
    ensures
        b1.events() == b0.events(),
        b1.spec_phase() == I2cPhase::Idle,
        b1.raised() == b0.raised(),
{
}

/// After a START (CR1 bit 8), the first data byte addresses the slave: it is told the 7-bit
/// address and the read bit once. When it acknowledges a write, the next data byte is passed to
/// it and the interrupt is requested; when it does not, or the master reads, the next data byte
/// is not passed on.
pub proof fn law_i2c_start_address_then_data(b0: I2cBus, b1: I2cBus, a: u8, b2: I2cBus, d: u8, b3: I2cBus)
    requires
        I2cBus::cr1_write_step(b0, 0x100, b1),
        I2cBus::dr_write_step(b1, a, b2),
        I2cBus::dr_write_step(b2, d, b3),
    ensures
        b1.spec_phase() == I2cPhase::AwaitAddress,
        b1.events() == b0.events(),
        b2.events().len() == b1.events().len() + 1,
        b2.events().drop_last() == b1.events(),
        b2.events().last() matches I2cEvent::Address(addr, read, ack) && addr == a >> 1u8 && read == (a & 1 != 0)
            && if ack && !read {
            b3.events() == b2.events().push(I2cEvent::Write(d)) && b3.raised() == b2.raised_after()
        } else {
            b3.events() == b2.events()
        },
{
    assert(0x100u32 & 0x200 == 0 && 0x100u32 & 0x100 != 0) by (bit_vector);
}

/// The deliveries of one pin change go exactly to the listeners among the first `n` that watch
/// that pin, each told the port, the pin and the level.
proof fn lemma_deliveries_exact(pins: Seq<GpioPin>, n: int, port: char, pin: u8, high: bool)
    requires
        0 <= n <= pins.len(),
    ensures
        forall|j: int| 0 <= j < deliveries(pins, n, port, pin, high).len() ==> {
            let e = #[trigger] deliveries(pins, n, port, pin, high)[j];
            &&& 0 <= e.0 < n
            &&& pins[e.0].port == port && pins[e.0].pin == pin
            &&& e.1 == port && e.2 == pin && e.3 == high
        },
        forall|i: int| 0 <= i < n && #[trigger] pins[i].port == port && pins[i].pin == pin ==> deliveries(
            pins,
            n,
            port,
            pin,
            high,
        ).contains((i, port, pin, high)),
    decreases n,
{
    if n > 0 {
        lemma_deliveries_exact(pins, n - 1, port, pin, high);
        let d0 = deliveries(pins, n - 1, port, pin, high);
        if pins[n - 1].port == port && pins[n - 1].pin == pin {
            let d = d0.push((n - 1, port, pin, high));
            assert(d[d.len() - 1] == (n - 1, port, pin, high));
            assert forall|i: int| 0 <= i < n && #[trigger] pins[i].port == port && pins[i].pin == pin implies d.contains(
                (i, port, pin, high),
            ) by {
                if i < n - 1 {
                    let j = choose|j: int| 0 <= j < d0.len() && d0[j] == (i, port, pin, high);
                    assert(d[j] == d0[j]);
                }
            }
        }
    }
}

/// A GPIO write tells the listeners of port `port` exactly of the watched pins whose bit
/// changed: every delivery names a listener that watches that pin of the port, a pin whose
/// bit is set in the changed mask, and the pin's new level; and every listener watching such a
/// pin is told. When nothing changed, no listener is told anything.
pub proof fn law_gpio_listeners_hear_changed_pins(pins: Seq<GpioPin>, n: int, port: char, mask: u16, new_val: u16, k: int)
    requires
        0 <= n <= pins.len(),
        0 <= k <= 16,
    ensures
        forall|j: int| 0 <= j < mask_deliveries(pins, n, port, mask, new_val, k).len() ==> {
            let e = #[trigger] mask_deliveries(pins, n, port, mask, new_val, k)[j];
            &&& 0 <= e.0 < n
            &&& e.1 == port && e.2 < k
            &&& pins[e.0].port == port && pins[e.0].pin == e.2
            &&& (mask >> e.2) & 1 != 0
            &&& e.3 == ((new_val >> e.2) & 1 != 0)
        },
        forall|i: int| 0 <= i < n && #[trigger] pins[i].port == port && pins[i].pin < k && (mask >> pins[i].pin) & 1 != 0
            ==> mask_deliveries(pins, n, port, mask, new_val, k).contains(
            (i, port, pins[i].pin, (new_val >> pins[i].pin) & 1 != 0),
        ),
        mask == 0 ==> mask_deliveries(pins, n, port, mask, new_val, k).len() == 0,
    decreases k,
{
    if k > 0 {
        law_gpio_listeners_hear_changed_pins(pins, n, port, mask, new_val, k - 1);
        let p = (k - 1) as u8;
        let d0 = mask_deliveries(pins, n, port, mask, new_val, k - 1);
        let d = mask_deliveries(pins, n, port, mask, new_val, k);
        if (mask >> p) & 1 != 0 {
            let h = (new_val >> p) & 1 != 0;
            let dp = deliveries(pins, n, port, p, h);
            lemma_deliveries_exact(pins, n, port, p, h);
            assert(d == d0 + dp);
            assert forall|j: int| 0 <= j < d.len() implies {
                let e = #[trigger] d[j];
                &&& 0 <= e.0 < n
                &&& e.1 == port && e.2 < k
                &&& pins[e.0].port == port && pins[e.0].pin == e.2
                &&& (mask >> e.2) & 1 != 0
                &&& e.3 == ((new_val >> e.2) & 1 != 0)
            } by {
                if j < d0.len() {
                    assert(d[j] == d0[j]);
                } else {
                    assert(d[j] == dp[j - d0.len()]);
                }
            }
            assert forall|i: int| 0 <= i < n && #[trigger] pins[i].port == port && pins[i].pin < k && (mask >> pins[i].pin) & 1
                != 0 implies d.contains((i, port, pins[i].pin, (new_val >> pins[i].pin) & 1 != 0)) by {
                let x = (i, port, pins[i].pin, (new_val >> pins[i].pin) & 1 != 0);
                if pins[i].pin < k - 1 {
                    let j = choose|j: int| 0 <= j < d0.len() && d0[j] == x;
                    assert(d[j] == d0[j]);
                } else {
                    assert(pins[i].pin == p);
                    let j = choose|j: int| 0 <= j < dp.len() && dp[j] == x;
                    assert(d[d0.len() + j] == dp[j]);
                }
            }
        } else {
            assert(d == d0);
            assert forall|i: int| 0 <= i < n && #[trigger] pins[i].port == port && pins[i].pin < k && (mask >> pins[i].pin) & 1
                != 0 implies d.contains((i, port, pins[i].pin, (new_val >> pins[i].pin) & 1 != 0)) by {
                assert(pins[i].pin != p);
            }
        }
        if mask == 0 {
            assert((0u16 >> p) & 1 == 0) by (bit_vector);
        }
    }
}

/// Setting the page range (0x22, then the first and last page) of a range that lies within
/// the current one makes it exactly the pages `a..=b`, with the cursor on page `a`.
pub proof fn law_ssd1306_page_range(r: Ssd1306Regs, width: u16, a: u8, b: u8)
    requires
        r.pending_left == 0,
        a <= b,
        b <= r.page_end,
    ensures
        ({
            let r1 = command_step(r, width, 0x22);
            let r2 = command_step(r1, width, a);
            let r3 = command_step(r2, width, b);
            &&& r3.page_start == a
            &&& r3.page_end == b
            &&& r3.page == a
            &&& r3.pending_left == 0
            &&& r3.pending_cmd is None
            &&& r3.col == r.col && r3.col_start == r.col_start && r3.col_end == r.col_end
            &&& r3.mode == r.mode
        }),
{
}

/// Setting the column range (0x21, then the first and last column) of a range that lies
/// within the current one and the panel (at most 256 columns wide) makes it exactly the columns `a..=b`, with the cursor
/// on column `a`.
pub proof fn law_ssd1306_column_range(r: Ssd1306Regs, width: u16, a: u8, b: u8)
    requires
        r.pending_left == 0,
        a <= b,
        b <= r.col_end,
        (b as int) < width as int,
        width <= 256,
    ensures
        ({
            let r1 = command_step(r, width, 0x21);
            let r2 = command_step(r1, width, a);
            let r3 = command_step(r2, width, b);
            &&& r3.col_start == a
            &&& r3.col_end == b
            &&& r3.col == a
            &&& r3.pending_left == 0
            &&& r3.pending_cmd is None
            &&& r3.page == r.page && r3.page_start == r.page_start && r3.page_end == r.page_end
            &&& r3.mode == r.mode
        }),
{
}

/// During RAMWR each completed pixel lands at the cursor and the cursor then moves on inside
/// the window: one column right, or at the end of a window row to the window's first column on
/// the next row, or after the window's last pixel back to its origin, ending a frame. A cursor
/// inside the window stays inside it.
pub proof fn law_st7789_cursor_walks_the_window(s: St7789Core, byte: u8, t: St7789Core)
    requires
        s.pixel_hi is Some,
        ramwr_post(s, byte, t),
        s.window_x0 <= s.cursor_x <= s.window_x1,
        s.window_y0 <= s.cursor_y <= s.window_y1,
    ensures
        t.window_x0 <= t.cursor_x <= t.window_x1,
        t.window_y0 <= t.cursor_y <= t.window_y1,
        s.cursor_x < s.window_x1 ==> t.cursor_x == s.cursor_x + 1 && t.cursor_y == s.cursor_y && t.frame_id == s.frame_id,
        s.cursor_x == s.window_x1 && s.cursor_y < s.window_y1 ==> t.cursor_x == s.window_x0 && t.cursor_y == s.cursor_y + 1
            && t.frame_id == s.frame_id,
        s.cursor_x == s.window_x1 && s.cursor_y == s.window_y1 ==> t.cursor_x == s.window_x0 && t.cursor_y == s.window_y0
            && t.frame_id == s.frame_id.wrapping_add(1),
        s.cursor_x < s.width && s.cursor_y < s.height && s.cursor_y * s.width + s.cursor_x < s.framebuffer@.len()
            ==> t.framebuffer@[s.cursor_y * s.width + s.cursor_x] == be16(s.pixel_hi->0, byte),
        t.pixel_hi is None,
{
}

/// Resolving `derivedFrom` keeps the number of peripherals, leaves those not yet reached as
/// they were, and never touches a peripheral again once it has been reached.
proof fn lemma_resolve_derived_frame(
    ps: Seq<(Seq<char>, u64, Seq<(Seq<char>, u64, u32, u64)>)>,
    derived: Seq<Option<Seq<char>>>,
    n: int,
)
    requires
        0 <= n <= ps.len(),
        derived.len() == ps.len(),
    ensures
        resolve_derived(ps, derived, n).len() == ps.len(),
        forall|j: int| n <= j < ps.len() ==> #[trigger] resolve_derived(ps, derived, n)[j] == ps[j],
        forall|j: int| 0 <= j < n ==> #[trigger] resolve_derived(ps, derived, n)[j] == resolve_derived(ps, derived, j + 1)[j],
    decreases n,
{
    if n > 0 {
        lemma_resolve_derived_frame(ps, derived, n - 1);
        let prev = resolve_derived(ps, derived, n - 1);
        let cur = resolve_derived(ps, derived, n);
        assert forall|j: int| 0 <= j < n implies #[trigger] cur[j] == resolve_derived(ps, derived, j + 1)[j] by {
            if j < n - 1 {
                assert(cur[j] == prev[j]);
            }
        }
        assert forall|j: int| n <= j < ps.len() implies #[trigger] cur[j] == ps[j] by {
            assert(cur[j] == prev[j]);
        }
    }
}

/// A peripheral without registers whose `derivedFrom` names a peripheral (the last of that
/// name) with registers gets, for each register of that parent, in order, a register with the
/// same name, width and reset value, at the parent register's offset from the parent's base
/// added to its own base; its name and base stay. The parent is taken as resolved when it comes
/// earlier in the file, as written otherwise.
pub proof fn law_svd_derived_peripheral_copies_parent_registers(
    ps: Seq<(Seq<char>, u64, Seq<(Seq<char>, u64, u32, u64)>)>,
    derived: Seq<Option<Seq<char>>>,
    idx: int,
    pn: Seq<char>,
    pi: int,
)
    requires
        derived.len() == ps.len(),
        0 <= idx < ps.len(),
        ps[idx].2.len() == 0,
        derived[idx] == Some(pn),
        last_named(ps, pn, ps.len() as int) == Some(pi),
        (if pi < idx { resolve_derived(ps, derived, ps.len() as int)[pi] } else { ps[pi] }).2.len() > 0,
    ensures
        ({
            let out = resolve_derived(ps, derived, ps.len() as int);
            let parent = if pi < idx { out[pi] } else { ps[pi] };
            &&& out[idx].0 == ps[idx].0
            &&& out[idx].1 == ps[idx].1
            &&& out[idx].2.len() == parent.2.len()
            &&& forall|k: int| 0 <= k < parent.2.len() ==> {
                let reg = #[trigger] out[idx].2[k];
                &&& reg.0 == parent.2[k].0
                &&& reg.1 == ps[idx].1.wrapping_add(parent.2[k].1.wrapping_sub(parent.1))
                &&& reg.2 == parent.2[k].2
                &&& reg.3 == parent.2[k].3
            }
        }),
{
    let len = ps.len() as int;
    lemma_resolve_derived_frame(ps, derived, len);
    lemma_resolve_derived_frame(ps, derived, idx);
    lemma_resolve_derived_frame(ps, derived, idx + 1);
    let out = resolve_derived(ps, derived, len);
    let prev = resolve_derived(ps, derived, idx);
    let cur = resolve_derived(ps, derived, idx + 1);
    assert(0 <= pi < len) by {
        lemma_last_named_bounds(ps, pn, len);
    }
    assert(prev[idx] == ps[idx]);
    if pi < idx {
        assert(prev[pi] == resolve_derived(ps, derived, pi + 1)[pi]);
        assert(out[pi] == resolve_derived(ps, derived, pi + 1)[pi]);
    } else {
        assert(pi != idx);
        assert(prev[pi] == ps[pi]);
    }
    assert(out[idx] == cur[idx]);
}

/// The offsets of the program headers among the first `n` (from `phoff`, `es` bytes apart)
/// that load something: type PT_LOAD (1) with a non-zero file size or memory size, in header
/// order.
pub open spec fn load_header_offsets(b: Seq<u8>, phoff: int, es: int, n: nat) -> Seq<int>
    decreases n,
{
    if n == 0 {
        Seq::empty()
    } else {
        let base = phoff + (n - 1) * es;
        let earlier = load_header_offsets(b, phoff, es, (n - 1) as nat);
        if le32(b, base) == 1 && (le32(b, base + 16) != 0 || le32(b, base + 20) != 0) {
            earlier.push(base)
        } else {
            earlier
        }
    }
}

/// Segment `seg` is what the program header at `h` loads: its physical address (`p_paddr`,
/// at +12), and `p_filesz` (at +16) bytes of the file from `p_offset` (at +4), followed by zeros
/// up to `p_memsz` (at +20) when that is larger.
pub open spec fn loads_header(b: Seq<u8>, h: int, seg: (u64, Seq<u8>)) -> bool {
    let offset = le32(b, h + 4) as int;
    let filesz = le32(b, h + 16) as int;
    let memsz = le32(b, h + 20) as int;
    &&& seg.0 == le32(b, h + 12) as u64
    &&& seg.1.len() == if memsz > filesz { memsz } else { filesz }
    &&& forall|i: int| 0 <= i < filesz ==> #[trigger] seg.1[i] == b[offset + i]
    &&& forall|i: int| filesz <= i < seg.1.len() ==> #[trigger] seg.1[i] == 0
}

proof fn lemma_elf_segments_are_load_headers(b: Seq<u8>, phoff: int, es: int, n: nat)
    requires
        elf_segments(b, phoff, es, n) is Ok,
    ensures
        ({
            let segs = elf_segments(b, phoff, es, n)->Ok_0;
            let hs = load_header_offsets(b, phoff, es, n);
            &&& segs.len() == hs.len()
            &&& forall|k: int| 0 <= k < segs.len() ==> loads_header(b, hs[k], #[trigger] segs[k])
        }),
    decreases n,
{
    if n > 0 {
        lemma_elf_segments_are_load_headers(b, phoff, es, (n - 1) as nat);
        let segs0 = elf_segments(b, phoff, es, (n - 1) as nat)->Ok_0;
        let hs0 = load_header_offsets(b, phoff, es, (n - 1) as nat);
        let segs = elf_segments(b, phoff, es, n)->Ok_0;
        let hs = load_header_offsets(b, phoff, es, n);
        let base = phoff + (n - 1) * es;
        if le32(b, base) == 1 && (le32(b, base + 16) != 0 || le32(b, base + 20) != 0) {
            assert(segs == segs0.push(load_segment(b, base)));
            assert(hs == hs0.push(base));
            assert forall|k: int| 0 <= k < segs.len() implies loads_header(b, hs[k], #[trigger] segs[k]) by {
                if k < segs0.len() {
                    assert(segs[k] == segs0[k] && hs[k] == hs0[k]);
                } else {
                    let offset = le32(b, base + 4) as int;
                    let filesz = le32(b, base + 16) as int;
                    let seg = segs[k];
                    assert(seg == load_segment(b, base));
                    assert forall|i: int| 0 <= i < filesz implies #[trigger] seg.1[i] == b[offset + i] by {
                    }
                    assert forall|i: int| filesz <= i < seg.1.len() implies #[trigger] seg.1[i] == 0 by {
                    }
                }
            }
        } else {
            assert(segs == segs0);
            assert(hs == hs0);
        }
    }
}

/// A parsed ELF file has exactly one segment per program header that loads something (PT_LOAD
/// with a non-zero file or memory size), in header order, and each segment is what its header
/// loads: at the header's physical address, the file bytes it names padded with zeros to its
/// memory size.
pub proof fn law_elf_segments_follow_load_headers(b: Seq<u8>)
    requires
        spec_parse_elf32(b) is Ok,
    ensures
        ({
            let segs = spec_parse_elf32(b)->Ok_0;
            let hs = load_header_offsets(b, le32(b, 28) as int, le16(b, 42) as int, le16(b, 44) as nat);
            &&& segs.len() == hs.len()
            &&& forall|k: int| 0 <= k < segs.len() ==> loads_header(b, hs[k], #[trigger] segs[k])
        }),
{
    lemma_elf_segments_are_load_headers(b, le32(b, 28) as int, le16(b, 42) as int, le16(b, 44) as nat);
}

/// Bit `k` of the status word `x` (31 N, 30 Z, 29 C, 28 V).
pub open spec fn status_bit(x: u32, k: u32) -> bool {
    (x >> k) & 1 == 1
}

/// The signed value of a 32-bit word (two's complement).
pub open spec fn signed32(v: u32) -> int {
    if v >= 0x8000_0000 {
        v as int - 0x1_0000_0000
    } else {
        v as int
    }
}

/// Bit `k` of `x` with bit `n` set, and with bit `n` cleared.
proof fn lemma_set_clear_bit(x: u32, n: u32, k: u32)
    requires
        n < 32,
        k < 32,
    ensures
        (((x | (1u32 << n)) >> k) & 1 == 1) == (k == n || (x >> k) & 1 == 1),
        (((x & !(1u32 << n)) >> k) & 1 == 1) == (k != n && (x >> k) & 1 == 1),
{
    assert((((x | (1u32 << n)) >> k) & 1 == 1) == (k == n || (x >> k) & 1 == 1) && (((x & !(1u32 << n)) >> k) & 1
        == 1) == (k != n && (x >> k) & 1 == 1)) by (bit_vector)
        requires
            n < 32,
            k < 32,
    ;
}

/// Setting bit `n` of `x` to `b` changes that bit only.
proof fn lemma_with_bit_bits(x: u32, n: u32, b: bool)
    requires
        n < 32,
    ensures
        forall|k: u32| k < 32 ==> #[trigger] status_bit(with_bit(x, n, b), k) == if k == n { b } else { status_bit(x, k) },
{
    assert forall|k: u32| k < 32 implies #[trigger] status_bit(with_bit(x, n, b), k) == if k == n {
        b
    } else {
        status_bit(x, k)
    } by {
        lemma_set_clear_bit(x, n, k);
    }
}

/// Top-bit facts: the sign bit, and the sign tests of signed overflow in a sum and a
/// difference.
proof fn lemma_sign_bits()
    ensures
        forall|v: u32| #[trigger] (v & 0x8000_0000) != 0 <==> v >= 0x8000_0000,
        forall|a: u32, m: u32, r: u32|
            #[trigger] (((a ^ r) & (m ^ r)) & 0x8000_0000) != 0 <==> ((a >= 0x8000_0000) == (m >= 0x8000_0000) && (r
                >= 0x8000_0000) != (a >= 0x8000_0000)),
        forall|a: u32, m: u32, r: u32|
            #[trigger] (((a ^ m) & (a ^ r)) & 0x8000_0000) != 0 <==> ((a >= 0x8000_0000) != (m >= 0x8000_0000) && (r
                >= 0x8000_0000) != (a >= 0x8000_0000)),
{
    assert((forall|v: u32| #[trigger] (v & 0x8000_0000) != 0 <==> v >= 0x8000_0000) && (forall|a: u32, m: u32, r: u32|
        #[trigger] (((a ^ r) & (m ^ r)) & 0x8000_0000) != 0 <==> ((a >= 0x8000_0000) == (m >= 0x8000_0000) && (r
            >= 0x8000_0000) != (a >= 0x8000_0000))) && (forall|a: u32, m: u32, r: u32|
        #[trigger] (((a ^ m) & (a ^ r)) & 0x8000_0000) != 0 <==> ((a >= 0x8000_0000) != (m >= 0x8000_0000) && (r
            >= 0x8000_0000) != (a >= 0x8000_0000)))) by (bit_vector);
}

/// The status bits after N and Z are set from `v`: N is its sign bit, Z whether it is zero;
/// the other bits stay.
proof fn lemma_nz_bits(x: u32, v: u32)
    ensures
        status_bit(nz(x, v), 31) == (v >= 0x8000_0000),
        status_bit(nz(x, v), 30) == (v == 0),
        forall|k: u32| k < 30 ==> #[trigger] status_bit(nz(x, v), k) == status_bit(x, k),
{
    lemma_sign_bits();
    let x1 = with_bit(x, 30, v == 0);
    lemma_with_bit_bits(x, 30, v == 0);
    lemma_with_bit_bits(x1, 31, v & 0x8000_0000 != 0);
    assert((v & 0x8000_0000 != 0) == (v >= 0x8000_0000));
}

/// The status bits after N, Z (from `v`), C and V are set; the bits below V stay.
proof fn lemma_nzcv_bits(x: u32, v: u32, c: bool, o: bool)
    ensures
        status_bit(overflow(carry(nz(x, v), c), o), 31) == (v >= 0x8000_0000),
        status_bit(overflow(carry(nz(x, v), c), o), 30) == (v == 0),
        status_bit(overflow(carry(nz(x, v), c), o), 29) == c,
        status_bit(overflow(carry(nz(x, v), c), o), 28) == o,
        forall|k: u32| k < 28 ==> #[trigger] status_bit(overflow(carry(nz(x, v), c), o), k) == status_bit(x, k),
{
    lemma_nz_bits(x, v);
    let x1 = nz(x, v);
    lemma_with_bit_bits(x1, 29, c);
    let x2 = carry(x1, c);
    lemma_with_bit_bits(x2, 28, o);
    assert forall|k: u32| k < 28 implies #[trigger] status_bit(overflow(carry(nz(x, v), c), o), k) == status_bit(x, k) by {
        assert(status_bit(x2, k) == status_bit(x1, k));
        assert(status_bit(x1, k) == status_bit(x, k));
    }
}

/// The carry into an add-with-carry or subtract-with-carry: the C flag as 0 or 1.
pub open spec fn carry_in(x: u32) -> int {
    if status_bit(x, 29) {
        1
    } else {
        0
    }
}

/// A 16-bit Thumb data-processing instruction (`010000 op Rm Rdn`) works as the ARMv7-M
/// manual defines it: `Rdn` gets `Rdn op Rm` (AND, EOR, shifts by the low byte of `Rm`, ADC,
/// SBC, ROR, NEG, ORR, MUL, BIC, MVN); TST, CMP and CMN only set flags. N and Z follow the
/// value computed; ADC, SBC, NEG, CMP and CMN set C as the unsigned carry (no borrow) and V as
/// signed overflow (for SBC, except with `Rm` = 0x7FFF_FFFF and C clear, where the core tests
/// overflow of `Rdn - (Rm + 1)` with `Rm + 1` wrapped); the others keep C and V. No other
/// register changes but the PC, which
/// moves past the instruction, and the bus is not touched.
#[verifier::rlimit(80)]
#[verifier::spinoff_prover]
pub proof fn law_thumb_data_processing<B: SystemBus>(
    s: CortexM3,
    b: B,
    opcode: u16,
    res: Option<bool>,
    s2: CortexM3,
    b2: B,
)
    requires
        opcode & 0xFC00 == 0x4000,
        s.registers@.len() == 16,
        step16_post(s, b, opcode, res, s2, b2),
    ensures
        ({
            let op = (opcode >> 6) & 0xF;
            let rdn = (opcode & 0x7) as int;
            let rm = ((opcode >> 3) & 0x7) as int;
            let a = s.registers@[rdn];
            let m = s.registers@[rm];
            let sh = m & 0xFF;
            let c = carry_in(s.xpsr);
            let x2 = s2.xpsr;
            let d = s2.registers@[rdn];
            let v: u32 = if op == 0x8 {
                a & m
            } else if op == 0xA {
                ((a as int - m as int) % 0x1_0000_0000) as u32
            } else if op == 0xB {
                ((a as int + m as int) % 0x1_0000_0000) as u32
            } else {
                d
            };
            &&& b2 == b && res == Some(true)
            &&& s2.registers@.len() == 16
            &&& s2.registers@[15] == s.registers@[15].wrapping_add(2)
            &&& forall|j: int| 0 <= j < 15 && j != rdn ==> #[trigger] s2.registers@[j] == s.registers@[j]
            &&& op == 0x0 ==> d == a & m
            &&& op == 0x1 ==> d == a ^ m
            &&& op == 0x2 ==> d == if sh < 32 { a << sh } else { 0 }
            &&& op == 0x3 ==> d == if sh == 0 { a } else if sh < 32 { a >> sh } else { 0 }
            &&& op == 0x4 ==> d == if sh == 0 {
                a
            } else if sh < 32 {
                if a >= 0x8000_0000 { (a >> sh) | !(0xFFFF_FFFFu32 >> sh) } else { a >> sh }
            } else if a >= 0x8000_0000 {
                0xFFFF_FFFFu32
            } else {
                0
            }
            &&& op == 0x5 ==> {
                &&& d as int == (a as int + m as int + c) % 0x1_0000_0000
                &&& status_bit(x2, 29) == (a as int + m as int + c >= 0x1_0000_0000)
                &&& status_bit(x2, 28) == (signed32(a) + signed32(m) + c != signed32(d))
            }
            &&& op == 0x6 ==> {
                &&& d as int == (a as int - m as int - (1 - c)) % 0x1_0000_0000
                &&& status_bit(x2, 29) == (a as int >= m as int + (1 - c))
                &&& !(m == 0x7FFF_FFFF && c == 0) ==> status_bit(x2, 28) == (signed32(a) - signed32(m) - (1 - c) != signed32(d))
            }
            &&& op == 0x7 ==> d == if sh == 0 || sh & 31 == 0 { a } else { (a >> (sh & 31)) | (a << ((32 - (sh & 31)) as u32)) }
            &&& op == 0x8 ==> d == a
            &&& op == 0x9 ==> {
                &&& d as int == (0 - m as int) % 0x1_0000_0000
                &&& status_bit(x2, 29) == (m == 0)
                &&& status_bit(x2, 28) == (0 - signed32(m) != signed32(d))
            }
            &&& op == 0xA ==> {
                &&& d == a
                &&& status_bit(x2, 29) == (a >= m)
                &&& status_bit(x2, 28) == (signed32(a) - signed32(m) != signed32(v))
            }
            &&& op == 0xB ==> {
                &&& d == a
                &&& status_bit(x2, 29) == (a as int + m as int >= 0x1_0000_0000)
                &&& status_bit(x2, 28) == (signed32(a) + signed32(m) != signed32(v))
            }
            &&& op == 0xC ==> d == a | m
            &&& op == 0xD ==> d as int == (a as int * m as int) % 0x1_0000_0000
            &&& op == 0xE ==> d == a & !m
            &&& op == 0xF ==> d == !m
            &&& status_bit(x2, 31) == (v >= 0x8000_0000)
            &&& status_bit(x2, 30) == (v == 0)
            &&& !(op == 0x5 || op == 0x6 || op == 0x9 || op == 0xA || op == 0xB) ==> status_bit(x2, 29) == status_bit(
                s.xpsr,
                29,
            ) && status_bit(x2, 28) == status_bit(s.xpsr, 28)
            &&& forall|k: u32| k < 28 ==> #[trigger] status_bit(x2, k) == status_bit(s.xpsr, k)
        }),
{
    lemma_small_masks();
    lemma_small_masks32();
    lemma_sign_bits();
    assert(opcode & 0xF800 == 0x4000) by (bit_vector)
        requires
            opcode & 0xFC00 == 0x4000,
    ;
    let op = (opcode >> 6) & 0xF;
    let rdn = (opcode & 0x7) as int;
    let rm = ((opcode >> 3) & 0x7) as int;
    let r = s.registers@;
    let x = s.xpsr;
    let a = r[rdn];
    let m = r[rm];
    let sh = m & 0xFF;
    let cin: u32 = if (x >> 29) & 1 == 1 { 1 } else { 0 };
    let (r1, x1) = dp16(r, x, opcode);
    assert(s2.registers@ == adv(r1, 2) && s2.xpsr == x1);
    if op == 0x5 {
        let res5 = a.wrapping_add(m).wrapping_add(cin);
        lemma_nzcv_bits(nz(x, res5), res5, a as int + m as int + cin as int > u32::MAX, ((a ^ res5) & (m ^ res5)) & 0x8000_0000 != 0);
        lemma_nzcv_bits(x, res5, a as int + m as int + cin as int > u32::MAX, ((a ^ res5) & (m ^ res5)) & 0x8000_0000 != 0);
    } else if op == 0x6 {
        let borrow = 1u32.wrapping_sub(cin);
        let rb = m.wrapping_add(borrow);
        let res6 = a.wrapping_sub(rb);
        lemma_nzcv_bits(x, res6, a as int >= m as int + borrow as int, ((a ^ rb) & (a ^ res6)) & 0x8000_0000 != 0);
    } else if op == 0x9 {
        let res9 = 0u32.wrapping_sub(m);
        lemma_nzcv_bits(x, res9, 0 >= m, ((0u32 ^ m) & (0u32 ^ res9)) & 0x8000_0000 != 0);
    } else if op == 0xA {
        let resa = a.wrapping_sub(m);
        lemma_nzcv_bits(x, resa, a >= m, ((a ^ m) & (a ^ resa)) & 0x8000_0000 != 0);
    } else if op == 0xB {
        let resb = a.wrapping_add(m);
        lemma_nzcv_bits(x, resb, a as int + m as int > u32::MAX, ((a ^ resb) & (m ^ resb)) & 0x8000_0000 != 0);
    } else {
        lemma_nz_bits(x, if op == 0x8 { a & m } else { r1[rdn] });
    }
}

/// CASET (0x2A) followed by four data bytes sets the column window to the big-endian first
/// and last column they give; RASET (0x2B) does the same for the row window. The other window
/// stays.
pub proof fn law_st7789_window_commands(
    s0: St7789Core,
    cmd: u8,
    s1: St7789Core,
    p0: u8,
    s2: St7789Core,
    p1: u8,
    s3: St7789Core,
    p2: u8,
    s4: St7789Core,
    p3: u8,
    s5: St7789Core,
)
    requires
        cmd == 0x2A || cmd == 0x2B,
        command_write_step(s0, cmd, s1),
        data_step(s1, p0, s2),
        data_step(s2, p1, s3),
        data_step(s3, p2, s4),
        data_step(s4, p3, s5),
    ensures
        cmd == 0x2A ==> s5.window_x0 == be16(p0, p1) && s5.window_x1 == be16(p2, p3) && s5.window_y0 == s0.window_y0
            && s5.window_y1 == s0.window_y1,
        cmd == 0x2B ==> s5.window_y0 == be16(p0, p1) && s5.window_y1 == be16(p2, p3) && s5.window_x0 == s0.window_x0
            && s5.window_x1 == s0.window_x1,
{
}

/// In horizontal addressing, the SSD1306 cursor moves one column right after each data byte;
/// after the range's last column it goes to the first column of the next page of the range,
/// and after the range's last page back to its first. A cursor inside the range stays inside.
pub proof fn law_ssd1306_horizontal_cursor(r: Ssd1306Regs)
    requires
        r.mode == AddressingMode::Horizontal,
        r.col_start <= r.col <= r.col_end,
        r.page_start <= r.page <= r.page_end,
    ensures
        ({
            let t = advance(r);
            &&& r.col < r.col_end ==> t.col == r.col + 1 && t.page == r.page
            &&& r.col == r.col_end && r.page < r.page_end ==> t.col == r.col_start && t.page == r.page + 1
            &&& r.col == r.col_end && r.page == r.page_end ==> t.col == r.col_start && t.page == r.page_start
            &&& t.col_start <= t.col <= t.col_end
            &&& t.page_start <= t.page <= t.page_end
        }),
{
}

/// In vertical addressing, the SSD1306 cursor moves one page down after each data byte; after
/// the range's last page it goes to the first page of the next column of the range, and after
/// the range's last column back to its first. A cursor inside the range stays inside.
pub proof fn law_ssd1306_vertical_cursor(r: Ssd1306Regs)
    requires
        r.mode == AddressingMode::Vertical,
        r.col_start <= r.col <= r.col_end,
        r.page_start <= r.page <= r.page_end,
    ensures
        ({
            let t = advance(r);
            &&& r.page < r.page_end ==> t.page == r.page + 1 && t.col == r.col
            &&& r.page == r.page_end && r.col < r.col_end ==> t.page == r.page_start && t.col == r.col + 1
            &&& r.page == r.page_end && r.col == r.col_end ==> t.page == r.page_start && t.col == r.col_start
            &&& t.col_start <= t.col <= t.col_end
            &&& t.page_start <= t.page <= t.page_end
        }),
{
}

/// A peripheral that lists registers of its own keeps them, and its name and base, whatever
/// its `derivedFrom` says.
pub proof fn law_svd_own_registers_win(
    ps: Seq<(Seq<char>, u64, Seq<(Seq<char>, u64, u32, u64)>)>,
    derived: Seq<Option<Seq<char>>>,
    idx: int,
)
    requires
        derived.len() == ps.len(),
        0 <= idx < ps.len(),
        ps[idx].2.len() > 0,
    ensures
        resolve_derived(ps, derived, ps.len() as int)[idx] == ps[idx],
{
    lemma_resolve_derived_frame(ps, derived, ps.len() as int);
    lemma_resolve_derived_frame(ps, derived, idx);
    assert(resolve_derived(ps, derived, idx)[idx] == ps[idx]);
}

/// The 16-bit Thumb immediate forms `MOVS`, `CMP`, `ADDS` and `SUBS Rd, #imm8` work as the
/// ARMv7-M manual defines them: MOVS loads the byte and sets N and Z from it; ADDS and SUBS
/// add or subtract it, CMP only compares; these three set N and Z from the value computed, C
/// as the unsigned carry (no borrow) and V as signed overflow. No other register changes but
/// the PC, which moves past the instruction, and the bus is not touched.
#[verifier::rlimit(40)]
pub proof fn law_thumb_immediate<B: SystemBus>(
    s: CortexM3,
    b: B,
    opcode: u16,
    res: Option<bool>,
    s2: CortexM3,
    b2: B,
)
    requires
        opcode & 0xF800 == 0x2000 || opcode & 0xF800 == 0x2800 || opcode & 0xF800 == 0x3000 || opcode & 0xF800
            == 0x3800,
        s.registers@.len() == 16,
        step16_post(s, b, opcode, res, s2, b2),
    ensures
        ({
            let hi = opcode & 0xF800;
            let rd = ((opcode >> 8) & 0x7) as int;
            let imm = (opcode & 0xFF) as u32;
            let a = s.registers@[rd];
            let d = s2.registers@[rd];
            let x2 = s2.xpsr;
            let v: u32 = if hi == 0x2800 { ((a as int - imm as int) % 0x1_0000_0000) as u32 } else { d };
            &&& b2 == b && res == Some(true)
            &&& s2.registers@.len() == 16
            &&& s2.registers@[15] == s.registers@[15].wrapping_add(2)
            &&& forall|j: int| 0 <= j < 15 && j != rd ==> #[trigger] s2.registers@[j] == s.registers@[j]
            &&& hi == 0x2000 ==> d == imm && status_bit(x2, 29) == status_bit(s.xpsr, 29) && status_bit(x2, 28)
                == status_bit(s.xpsr, 28)
            &&& hi == 0x2800 ==> d == a && status_bit(x2, 29) == (a >= imm) && status_bit(x2, 28) == (signed32(a)
                - imm != signed32(v))
            &&& hi == 0x3000 ==> d as int == (a as int + imm as int) % 0x1_0000_0000 && status_bit(x2, 29) == (a as int
                + imm as int >= 0x1_0000_0000) && status_bit(x2, 28) == (signed32(a) + imm != signed32(d))
            &&& hi == 0x3800 ==> d as int == (a as int - imm as int) % 0x1_0000_0000 && status_bit(x2, 29) == (a >= imm)
                && status_bit(x2, 28) == (signed32(a) - imm != signed32(d))
            &&& status_bit(x2, 31) == (v >= 0x8000_0000)
            &&& status_bit(x2, 30) == (v == 0)
            &&& forall|k: u32| k < 28 ==> #[trigger] status_bit(x2, k) == status_bit(s.xpsr, k)
        }),
{
    lemma_small_masks();
    lemma_sign_bits();
    let hi = opcode & 0xF800;
    let rd = ((opcode >> 8) & 0x7) as int;
    let imm = (opcode & 0xFF) as u32;
    let x = s.xpsr;
    let a = s.registers@[rd];
    assert(imm < 256);
    if hi == 0x2000 {
        lemma_nz_bits(x, imm);
    } else if hi == 0x2800 {
        let v = a.wrapping_sub(imm);
        lemma_nzcv_bits(x, v, a >= imm, ((a ^ imm) & (a ^ v)) & 0x8000_0000 != 0);
    } else if hi == 0x3000 {
        let v = a.wrapping_add(imm);
        assert(v.wrapping_sub(imm) == a);
        lemma_nzcv_bits(x, v, a as int + imm as int > u32::MAX, ((a ^ v) & (imm ^ v)) & 0x8000_0000 != 0);
    } else {
        let v = a.wrapping_sub(imm);
        assert(v.wrapping_add(imm) == a);
        lemma_nzcv_bits(x, v, a >= imm, ((a ^ imm) & (a ^ v)) & 0x8000_0000 != 0);
    }
}

/// The addressing-mode command (0x20 and one argument) selects horizontal addressing for 0,
/// vertical for 1 and page addressing for 2 or 3 (the argument's low two bits), and leaves the
/// cursor and the ranges alone.
pub proof fn law_ssd1306_addressing_mode(r: Ssd1306Regs, width: u16, m: u8)
    requires
        r.pending_left == 0,
        m <= 3,
    ensures
        ({
            let r2 = command_step(command_step(r, width, 0x20), width, m);
            &&& r2.mode == if m == 0 {
                AddressingMode::Horizontal
            } else if m == 1 {
                AddressingMode::Vertical
            } else {
                AddressingMode::Page
            }
            &&& r2.pending_left == 0 && r2.pending_cmd is None
            &&& r2.col == r.col && r2.page == r.page
            &&& r2.col_start == r.col_start && r2.col_end == r.col_end
            &&& r2.page_start == r.page_start && r2.page_end == r.page_end
        }),
{
    assert(m & 3 == m) by (bit_vector)
        requires
            m <= 3,
    ;
}

} // verus!
