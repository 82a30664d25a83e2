//! SSD1306 monochrome OLED controller on I2C: command decoding, GDDRAM writes and an ARGB
//! preview of the panel.
use crate::bus::traits::{FrameUpdate, I2cSlave};
use crate::peripherals::framebuf::{copy_pixels, filled_bytes, filled_pixels};
use vstd::prelude::*;

verus! {

/// Colour of a lit pixel.
pub const PIXEL_ON: u32 = 0xFFFF_FFFF;

/// Colour of a dark pixel.
pub const PIXEL_OFF: u32 = 0xFF00_0000;

/// How the cursor advances after a data byte.
#[derive(Debug, Clone, Copy, PartialEq, Eq, Structural)]
pub enum AddressingMode {
    Horizontal,
    Vertical,
    Page,
}

/// What the bytes after the control byte are.
#[derive(Debug, Clone, Copy, PartialEq, Eq, Structural)]
pub enum StreamKind {
    Command,
    Data,
}

/// The controller's registers, as plain values.
#[derive(Debug, Clone, Copy, PartialEq, Eq, Structural)]
pub struct Ssd1306Regs {
    pub mode: AddressingMode,
    pub page_start: u8,
    pub page_end: u8,
    pub col_start: u8,
    pub col_end: u8,
    pub page: u8,
    pub col: u8,
    pub pending_cmd: Option<u8>,
    pub pending_left: u8,
    pub arg0: u8,
    pub arg1: u8,
    pub pending_filled: u8,
}

/// SSD1306 core: registers, GDDRAM (one byte per page and column) and the ARGB preview
/// (`width * height` pixels).
#[derive(Debug)]
pub struct Ssd1306Core {
    pub width: u16,
    pub height: u16,
    pub addressing_mode: AddressingMode,
    pub page_start: u8,
    pub page_end: u8,
    pub col_start: u8,
    pub col_end: u8,
    pub page: u8,
    pub col: u8,
    pub stream_kind: Option<StreamKind>,
    pub pending_cmd: Option<u8>,
    pub pending_left: u8,
    pub pending_args: [u8; 2],
    pub pending_filled: u8,
    pub gddram: Vec<u8>,
    pub preview_argb: Vec<u32>,
    pub latest_frame_argb: Option<Vec<u32>>,
    pub data_bytes_written: u32,
}

/// The pixels of a snapshot frame, if there is one.
pub open spec fn frame_view(f: Option<Vec<u32>>) -> Option<Seq<u32>> {
    match f {
        Some(v) => Some(v@),
        None => None,
    }
}

/// Number of argument bytes of a command.
pub open spec fn arg_count(cmd: u8) -> u8 {
    if cmd == 0x20 || cmd == 0x81 || cmd == 0x8D || cmd == 0xA8 || cmd == 0xD3 || cmd == 0xD5
        || cmd == 0xD9 || cmd == 0xDA || cmd == 0xDB {
        1
    } else if cmd == 0x21 || cmd == 0x22 {
        2
    } else {
        0
    }
}

pub open spec fn min_u8(a: u8, b: u8) -> u8 {
    if a < b { a } else { b }
}

pub open spec fn max_u8(a: u8, b: u8) -> u8 {
    if a > b { a } else { b }
}

/// Registers after the pending command (with its arguments collected) takes effect:
/// addressing mode (0x20), column range (0x21) or page range (0x22).
pub open spec fn apply_pending(r: Ssd1306Regs, width: u16) -> Ssd1306Regs {
    match r.pending_cmd {
        None => r,
        Some(cmd) => {
            let r0 = Ssd1306Regs { pending_cmd: None, pending_left: 0, pending_filled: 0, ..r };
            if cmd == 0x20 {
                let m = r.arg0 & 3;
                Ssd1306Regs {
                    mode: if m == 0 {
                        AddressingMode::Horizontal
                    } else if m == 1 {
                        AddressingMode::Vertical
                    } else {
                        AddressingMode::Page
                    },
                    ..r0
                }
            } else if cmd == 0x21 {
                let start = min_u8(r.arg0, r.col_end);
                let last: u8 = (if width == 0 { 0u16 } else { (width - 1) as u16 }) as u8;
                Ssd1306Regs { col_start: start, col_end: max_u8(min_u8(r.arg1, last), start), col: start, ..r0 }
            } else if cmd == 0x22 {
                let start = min_u8(r.arg0, r.page_end);
                Ssd1306Regs {
                    page_start: start,
                    page_end: max_u8(min_u8(r.arg1, r.page_end), start),
                    page: start,
                    ..r0
                }
            } else {
                r0
            }
        },
    }
}

/// Registers after a command-stream byte: an argument of the pending command, a column or
/// page address, or a command that takes arguments.
pub open spec fn command_step(r: Ssd1306Regs, width: u16, byte: u8) -> Ssd1306Regs {
    if r.pending_left > 0 {
        let filled: u8 = if r.pending_filled == 255 { 255 } else { (r.pending_filled + 1) as u8 };
        let r1 = Ssd1306Regs {
            arg0: if r.pending_filled == 0 { byte } else { r.arg0 },
            arg1: if r.pending_filled == 0 { r.arg1 } else { byte },
            pending_filled: filled,
            pending_left: (r.pending_left - 1) as u8,
            ..r
        };
        if r1.pending_left == 0 { apply_pending(r1, width) } else { r1 }
    } else if byte <= 0x0F {
        Ssd1306Regs { col: min_u8((r.col & 0xF0) | (byte & 0x0F), r.col_end), ..r }
    } else if byte <= 0x1F {
        Ssd1306Regs { col: min_u8((r.col & 0x0F) | ((byte & 0x0F) << 4u8), r.col_end), ..r }
    } else if 0xB0 <= byte <= 0xB7 {
        Ssd1306Regs { page: min_u8(byte & 0x0F, r.page_end), ..r }
    } else if arg_count(byte) > 0 {
        Ssd1306Regs { pending_cmd: Some(byte), pending_left: arg_count(byte), pending_filled: 0, ..r }
    } else {
        r
    }
}

/// Registers after the cursor moves past a data byte, by addressing mode.
pub open spec fn advance(r: Ssd1306Regs) -> Ssd1306Regs {
    match r.mode {
        AddressingMode::Page => Ssd1306Regs {
            col: if r.col < r.col_end { (r.col + 1) as u8 } else { r.col_start },
            ..r
        },
        AddressingMode::Horizontal => if r.col < r.col_end {
            Ssd1306Regs { col: (r.col + 1) as u8, ..r }
        } else {
            Ssd1306Regs {
                col: r.col_start,
                page: if r.page < r.page_end { (r.page + 1) as u8 } else { r.page_start },
                ..r
            }
        },
        AddressingMode::Vertical => if r.page < r.page_end {
            Ssd1306Regs { page: (r.page + 1) as u8, ..r }
        } else {
            Ssd1306Regs {
                page: r.page_start,
                col: if r.col < r.col_end { (r.col + 1) as u8 } else { r.col_start },
                ..r
            }
        },
    }
}

/// The preview after painting bits `0..n` of `byte` at column `col` of page `page` (bit `b`
/// is row `8 * page + b`); pixels outside the panel are skipped.
pub open spec fn paint_bits(p: Seq<u32>, w: int, h: int, page: int, col: int, byte: u8, n: int) -> Seq<u32>
    decreases n,
{
    if n <= 0 {
        p
    } else {
        let q = paint_bits(p, w, h, page, col, byte, n - 1);
        let y = page * 8 + (n - 1);
        if y < h && col < w {
            q.update(y * w + col, if (byte >> ((n - 1) as u8)) & 1 != 0 { PIXEL_ON } else { PIXEL_OFF })
        } else {
            q
        }
    }
}

/// Number of 8-row pages of a panel `height` rows high (at least one; kept in a byte).
pub open spec fn page_count(height: u16) -> u8 {
    let p = (if height > 0xFFFF - 7 { 0xFFFFu16 } else { (height + 7) as u16 }) / 8;
    (if p < 1 { 1 } else { p }) as u8
}

impl Ssd1306Core {
    /// The controller's registers.
    pub open spec fn regs(&self) -> Ssd1306Regs {
        Ssd1306Regs {
            mode: self.addressing_mode,
            page_start: self.page_start,
            page_end: self.page_end,
            col_start: self.col_start,
            col_end: self.col_end,
            page: self.page,
            col: self.col,
            pending_cmd: self.pending_cmd,
            pending_left: self.pending_left,
            arg0: self.pending_args[0],
            arg1: self.pending_args[1],
            pending_filled: self.pending_filled,
        }
    }

    /// The preview holds one pixel per row and column.
    pub open spec fn wf(&self) -> bool {
        self.preview_argb@.len() == self.width * self.height
    }

    /// Whether the preview holds one pixel per row and column.
    pub fn is_consistent(&self) -> (r: bool)
        ensures
            r == self.wf(),
    {
        assert(self.width as int * self.height as int <= 0xFFFF * 0xFFFF) by (nonlinear_arith);
        self.preview_argb.len() == (self.width as usize) * (self.height as usize)
    }

    /// A controller with a blank `width` x `height` panel, in page addressing mode.
    pub fn new(width: u16, height: u16) -> (r: Self)
        ensures
            r.wf(),
            r.width == width,
            r.height == height,
            r.regs() == (Ssd1306Regs {
                mode: AddressingMode::Page,
                page_start: 0,
                page_end: (if page_count(height) < 1 { 0 } else { page_count(height) - 1 }) as u8,
                col_start: 0,
                col_end: (if width == 0 { 0 } else if width - 1 > 255 { 255 } else { width - 1 }) as u8,
                page: 0,
                col: 0,
                pending_cmd: None,
                pending_left: 0,
                arg0: 0,
                arg1: 0,
                pending_filled: 0,
            }),
            r.stream_kind is None,
            r.gddram@ == Seq::new((width * page_count(height)) as nat, |i: int| 0u8),
            r.preview_argb@ == Seq::new((width * height) as nat, |i: int| PIXEL_OFF),
            r.latest_frame_argb is None,
            r.data_bytes_written == 0,
    {
        let h7 = height.saturating_add(7) / 8;
        let pages: u8 = (if h7 < 1 { 1 } else { h7 }) as u8;
        assert(pages == page_count(height));
        assert(width as int * pages as int <= 0xFFFF * 0xFF) by (nonlinear_arith)
            requires
                width <= 0xFFFF,
                pages <= 0xFF,
        ;
        let fb_len = (width as usize) * (pages as usize);
        assert(width as int * height as int <= 0xFFFF * 0xFFFF) by (nonlinear_arith);
        let px_len = (width as usize) * (height as usize);
        let w1 = width.saturating_sub(1);
        let col_end: u8 = (if w1 > 255 { 255 } else { w1 }) as u8;
        let page_end = pages.saturating_sub(1);
        Ssd1306Core {
            width,
            height,
            addressing_mode: AddressingMode::Page,
            page_start: 0,
            page_end,
            col_start: 0,
            col_end,
            page: 0,
            col: 0,
            stream_kind: None,
            pending_cmd: None,
            pending_left: 0,
            pending_args: [0, 0],
            pending_filled: 0,
            gddram: filled_bytes(fb_len, 0),
            preview_argb: filled_pixels(px_len, PIXEL_OFF),
            latest_frame_argb: None,
            data_bytes_written: 0,
        }
    }

    /// Takes the snapshot frame, if there is one.
    pub fn latest_frame(&mut self) -> (r: Option<Vec<u32>>)
        ensures
            r == old(self).latest_frame_argb,
            final(self).latest_frame_argb is None,
            final(self).regs() == old(self).regs(),
            final(self).preview_argb == old(self).preview_argb,
            final(self).gddram == old(self).gddram,
            final(self).width == old(self).width,
            final(self).height == old(self).height,
            final(self).stream_kind == old(self).stream_kind,
            final(self).data_bytes_written == old(self).data_bytes_written,
    {
        self.latest_frame_argb.take()
    }

    /// Takes one command-stream byte.
    pub fn write_command(&mut self, byte: u8)
        ensures
            final(self).regs() == command_step(old(self).regs(), old(self).width, byte),
            final(self).preview_argb == old(self).preview_argb,
            final(self).gddram == old(self).gddram,
            final(self).latest_frame_argb == old(self).latest_frame_argb,
            final(self).width == old(self).width,
            final(self).height == old(self).height,
            final(self).stream_kind == old(self).stream_kind,
            final(self).data_bytes_written == old(self).data_bytes_written,
    {
        if self.pending_left > 0 {
            if self.pending_filled == 0 {
                self.pending_args = [byte, self.pending_args[1]];
            } else {
                self.pending_args = [self.pending_args[0], byte];
            }
            self.pending_filled = self.pending_filled.saturating_add(1);
            self.pending_left = self.pending_left - 1;
            if self.pending_left == 0 {
                self.apply_pending_command();
            }
            return;
        }
        if byte <= 0x0F {
            let c = (self.col & 0xF0) | (byte & 0x0F);
            self.col = if c < self.col_end { c } else { self.col_end };
            return;
        }
        if byte <= 0x1F {
            let c = (self.col & 0x0F) | ((byte & 0x0F) << 4u8);
            self.col = if c < self.col_end { c } else { self.col_end };
            return;
        }
        if 0xB0 <= byte && byte <= 0xB7 {
            let p = byte & 0x0F;
            self.page = if p < self.page_end { p } else { self.page_end };
            return;
        }
        let argc = command_arg_count(byte);
        if argc > 0 {
            self.pending_cmd = Some(byte);
            self.pending_left = argc;
            self.pending_filled = 0;
        }
    }

    fn apply_pending_command(&mut self)
        ensures
            final(self).regs() == apply_pending(old(self).regs(), old(self).width),
            final(self).preview_argb == old(self).preview_argb,
            final(self).gddram == old(self).gddram,
            final(self).latest_frame_argb == old(self).latest_frame_argb,
            final(self).width == old(self).width,
            final(self).height == old(self).height,
            final(self).stream_kind == old(self).stream_kind,
            final(self).data_bytes_written == old(self).data_bytes_written,
    {
        let cmd = match self.pending_cmd {
            Some(c) => c,
            None => return,
        };
        self.pending_cmd = None;
        let a0 = self.pending_args[0];
        let a1 = self.pending_args[1];
        self.pending_left = 0;
        self.pending_filled = 0;
        if cmd == 0x20 {
            let m = a0 & 0x03;
            self.addressing_mode = if m == 0 {
                AddressingMode::Horizontal
            } else if m == 1 {
                AddressingMode::Vertical
            } else {
                AddressingMode::Page
            };
        } else if cmd == 0x21 {
            let start = if a0 < self.col_end { a0 } else { self.col_end };
            let last = self.width.saturating_sub(1) as u8;
            let end0 = if a1 < last { a1 } else { last };
            self.col_start = start;
            self.col_end = if end0 > start { end0 } else { start };
            self.col = start;
        } else if cmd == 0x22 {
            let start = if a0 < self.page_end { a0 } else { self.page_end };
            let end0 = if a1 < self.page_end { a1 } else { self.page_end };
            self.page_start = start;
            self.page_end = if end0 > start { end0 } else { start };
            self.page = start;
        }
    }

    /// Takes one data byte: stored in GDDRAM at the cursor (page and column kept within their
    /// ranges) and painted into the preview; every 128th stored byte snapshots the preview
    /// when no snapshot is waiting; then the cursor advances.
    pub fn write_data(&mut self, byte: u8)
        requires
            old(self).wf(),
        ensures
            final(self).wf(),
            final(self).regs() == advance(old(self).regs()),
            final(self).width == old(self).width,
            final(self).height == old(self).height,
            final(self).stream_kind == old(self).stream_kind,
            ({
                let page = min_u8(old(self).page, old(self).page_end);
                let col = min_u8(old(self).col, old(self).col_end);
                let idx = page * old(self).width + col;
                if idx < old(self).gddram@.len() {
                    let n: u32 = if old(self).data_bytes_written == u32::MAX {
                        u32::MAX
                    } else {
                        (old(self).data_bytes_written + 1) as u32
                    };
                    &&& final(self).gddram@ == old(self).gddram@.update(idx, byte)
                    &&& final(self).preview_argb@ == paint_bits(
                        old(self).preview_argb@,
                        old(self).width as int,
                        old(self).height as int,
                        page as int,
                        col as int,
                        byte,
                        8,
                    )
                    &&& final(self).data_bytes_written == n
                    &&& frame_view(final(self).latest_frame_argb) == if n % 128 == 0
                        && old(self).latest_frame_argb is None {
                        Some(final(self).preview_argb@)
                    } else {
                        frame_view(old(self).latest_frame_argb)
                    }
                } else {
                    &&& final(self).gddram == old(self).gddram
                    &&& final(self).preview_argb == old(self).preview_argb
                    &&& final(self).data_bytes_written == old(self).data_bytes_written
                    &&& final(self).latest_frame_argb == old(self).latest_frame_argb
                }
            }),
    {
        let page = if self.page < self.page_end { self.page } else { self.page_end };
        let col = if self.col < self.col_end { self.col } else { self.col_end };
        assert(page as int * self.width as int <= 0xFF * 0xFFFF) by (nonlinear_arith)
            requires
                page <= 0xFF,
                self.width <= 0xFFFF,
        ;
        let idx = (page as usize) * (self.width as usize) + (col as usize);
        if idx < self.gddram.len() {
            self.gddram.set(idx, byte);
            self.paint_byte(page, col, byte);
            self.data_bytes_written = self.data_bytes_written.saturating_add(1);
            if self.data_bytes_written % 128 == 0 {
                self.snapshot_if_empty();
            }
        }
        self.advance_cursor();
    }

    fn paint_byte(&mut self, page: u8, col: u8, byte: u8)
        requires
            old(self).wf(),
        ensures
            final(self).wf(),
            final(self).preview_argb@ == paint_bits(
                old(self).preview_argb@,
                old(self).width as int,
                old(self).height as int,
                page as int,
                col as int,
                byte,
                8,
            ),
            final(self).regs() == old(self).regs(),
            final(self).gddram == old(self).gddram,
            final(self).latest_frame_argb == old(self).latest_frame_argb,
            final(self).width == old(self).width,
            final(self).height == old(self).height,
            final(self).stream_kind == old(self).stream_kind,
            final(self).data_bytes_written == old(self).data_bytes_written,
    {
        let x = col as usize;
        let w = self.width as usize;
        let h = self.height as usize;
        let mut bit: u8 = 0;
        while bit < 8
            invariant
                bit <= 8,
                self.wf(),
                w == self.width,
                h == self.height,
                x == col,
                self.preview_argb@ == paint_bits(
                    old(self).preview_argb@,
                    w as int,
                    h as int,
                    page as int,
                    col as int,
                    byte,
                    bit as int,
                ),
                self.regs() == old(self).regs(),
                self.gddram == old(self).gddram,
                self.latest_frame_argb == old(self).latest_frame_argb,
                self.width == old(self).width,
                self.height == old(self).height,
                self.stream_kind == old(self).stream_kind,
                self.data_bytes_written == old(self).data_bytes_written,
            decreases 8 - bit,
        {
            let y = (page as usize) * 8 + (bit as usize);
            if y < h && x < w {
                assert(y * w + x < w * h && w * h <= 0xFFFF * 0xFFFF) by (nonlinear_arith)
                    requires
                        y < h,
                        x < w,
                        h <= 0xFFFF,
                        w <= 0xFFFF,
                ;
                let px = y * w + x;
                let on = (byte >> bit) & 1 != 0;
                self.preview_argb.set(px, if on { PIXEL_ON } else { PIXEL_OFF });
            }
            bit = bit + 1;
        }
    }

    fn advance_cursor(&mut self)
        ensures
            final(self).regs() == advance(old(self).regs()),
            final(self).preview_argb == old(self).preview_argb,
            final(self).gddram == old(self).gddram,
            final(self).latest_frame_argb == old(self).latest_frame_argb,
            final(self).width == old(self).width,
            final(self).height == old(self).height,
            final(self).stream_kind == old(self).stream_kind,
            final(self).data_bytes_written == old(self).data_bytes_written,
    {
        match self.addressing_mode {
            AddressingMode::Page => {
                if self.col < self.col_end {
                    self.col = self.col + 1;
                } else {
                    self.col = self.col_start;
                }
            },
            AddressingMode::Horizontal => {
                if self.col < self.col_end {
                    self.col = self.col + 1;
                } else {
                    self.col = self.col_start;
                    if self.page < self.page_end {
                        self.page = self.page + 1;
                    } else {
                        self.page = self.page_start;
                    }
                }
            },
            AddressingMode::Vertical => {
                if self.page < self.page_end {
                    self.page = self.page + 1;
                } else {
                    self.page = self.page_start;
                    if self.col < self.col_end {
                        self.col = self.col + 1;
                    } else {
                        self.col = self.col_start;
                    }
                }
            },
        }
    }

    /// Keeps a copy of the preview as the snapshot frame, unless one is waiting.
    pub fn snapshot_if_empty(&mut self)
        ensures
            frame_view(final(self).latest_frame_argb) == if old(self).latest_frame_argb is None {
                Some(old(self).preview_argb@)
            } else {
                frame_view(old(self).latest_frame_argb)
            },
            final(self).regs() == old(self).regs(),
            final(self).preview_argb == old(self).preview_argb,
            final(self).gddram == old(self).gddram,
            final(self).width == old(self).width,
            final(self).height == old(self).height,
            final(self).stream_kind == old(self).stream_kind,
            final(self).data_bytes_written == old(self).data_bytes_written,
    {
        if self.latest_frame_argb.is_none() {
            self.latest_frame_argb = Some(copy_pixels(&self.preview_argb));
        }
    }
}

fn command_arg_count(cmd: u8) -> (r: u8)
    ensures
        r == arg_count(cmd),
{
    if cmd == 0x20 || cmd == 0x81 || cmd == 0x8D || cmd == 0xA8 || cmd == 0xD3 || cmd == 0xD5 || cmd
        == 0xD9 || cmd == 0xDA || cmd == 0xDB {
        1
    } else if cmd == 0x21 || cmd == 0x22 {
        2
    } else {
        0
    }
}

/// SSD1306 panel on an I2C bus, answering at a 7-bit address.
#[derive(Debug)]
pub struct Ssd1306I2c {
    core: Ssd1306Core,
    address: u8,
}

impl Ssd1306I2c {
    /// The controller's state.
    pub closed spec fn spec_core(&self) -> Ssd1306Core {
        self.core
    }

    /// The 7-bit address the panel answers.
    pub closed spec fn spec_address(&self) -> u8 {
        self.address
    }

    /// The panel's state is consistent.
    pub closed spec fn wf(&self) -> bool {
        self.core.wf()
    }

    /// A blank `width` x `height` panel at 7-bit `address` (the high bit dropped).
    pub fn new(width: u16, height: u16, i2c_peripheral: String, address: u8) -> (r: Self)
        ensures
            r.wf(),
            r.spec_address() == address & 0x7F,
            r.spec_core().width == width,
            r.spec_core().height == height,
            r.spec_core().latest_frame_argb is None,
            r.spec_core().stream_kind is None,
    {
        Ssd1306I2c { core: Ssd1306Core::new(width, height), address: address & 0x7f }
    }

    pub fn width(&self) -> (r: u16)
        ensures
            r == self.spec_core().width,
    {
        self.core.width
    }

    pub fn height(&self) -> (r: u16)
        ensures
            r == self.spec_core().height,
    {
        self.core.height
    }

    /// Takes the snapshot frame, if there is one.
    pub fn latest_frame(&mut self) -> (r: Option<Vec<u32>>)
        requires
            old(self).wf(),
        ensures
            final(self).wf(),
            r == old(self).spec_core().latest_frame_argb,
            final(self).spec_core().latest_frame_argb is None,
            final(self).spec_core().preview_argb == old(self).spec_core().preview_argb,
            final(self).spec_core().stream_kind == old(self).spec_core().stream_kind,
            final(self).spec_address() == old(self).spec_address(),
    {
        self.core.latest_frame()
    }

    /// Ends the current transfer: the command/data stream and any pending command are dropped.
    fn end_stream(&mut self)
        ensures
            final(self).spec_core().stream_kind is None,
            final(self).spec_core().pending_cmd is None,
            final(self).spec_core().pending_left == 0,
            final(self).spec_core().pending_filled == 0,
            final(self).spec_core().preview_argb == old(self).spec_core().preview_argb,
            final(self).spec_core().latest_frame_argb == old(self).spec_core().latest_frame_argb,
            final(self).spec_core().width == old(self).spec_core().width,
            final(self).spec_core().height == old(self).spec_core().height,
            final(self).spec_address() == old(self).spec_address(),
    {
        self.core.stream_kind = None;
        self.core.pending_cmd = None;
        self.core.pending_left = 0;
        self.core.pending_filled = 0;
    }

    /// Address phase: the panel acknowledges a write to its own address and starts a new
    /// stream.
    pub fn on_address(&mut self, addr7: u8, read: bool) -> (r: bool)
        requires
            old(self).wf(),
        ensures
            final(self).wf(),
            r == (addr7 == old(self).spec_address() && !read),
            r ==> final(self).spec_core().stream_kind is None,
            !r ==> final(self).spec_core() == old(self).spec_core(),
            final(self).spec_core().preview_argb == old(self).spec_core().preview_argb,
            final(self).spec_core().latest_frame_argb == old(self).spec_core().latest_frame_argb,
            final(self).spec_address() == old(self).spec_address(),
    {
        if addr7 == self.address && !read {
            self.end_stream();
            true
        } else {
            false
        }
    }

    /// A byte written by the master: the first after the address is the control byte (bit 6
    /// selects data), the others are commands or data.
    pub fn on_write_byte(&mut self, data: u8)
        requires
            old(self).wf(),
        ensures
            final(self).wf(),
            final(self).spec_address() == old(self).spec_address(),
            match old(self).spec_core().stream_kind {
                None => final(self).spec_core().stream_kind == Some(
                    if data & 0x40 != 0 { StreamKind::Data } else { StreamKind::Command },
                ) && final(self).spec_core().pending_cmd is None && final(self).spec_core().pending_left == 0
                    && final(self).spec_core().preview_argb == old(self).spec_core().preview_argb,
                Some(StreamKind::Command) => final(self).spec_core().regs() == command_step(
                    old(self).spec_core().regs(),
                    old(self).spec_core().width,
                    data,
                ) && final(self).spec_core().preview_argb == old(self).spec_core().preview_argb,
                Some(StreamKind::Data) => final(self).spec_core().regs() == advance(old(self).spec_core().regs()),
            },
    {
        match self.core.stream_kind {
            None => {
                self.core.stream_kind = if (data & 0x40) != 0 {
                    Some(StreamKind::Data)
                } else {
                    Some(StreamKind::Command)
                };
                self.core.pending_cmd = None;
                self.core.pending_left = 0;
                self.core.pending_filled = 0;
            },
            Some(StreamKind::Command) => self.core.write_command(data),
            Some(StreamKind::Data) => self.core.write_data(data),
        }
    }

    /// STOP: snapshots the preview (unless a snapshot is waiting) and ends the stream.
    pub fn on_stop(&mut self)
        requires
            old(self).wf(),
        ensures
            final(self).wf(),
            final(self).spec_core().stream_kind is None,
            frame_view(final(self).spec_core().latest_frame_argb) == if old(self).spec_core().latest_frame_argb is None {
                Some(old(self).spec_core().preview_argb@)
            } else {
                frame_view(old(self).spec_core().latest_frame_argb)
            },
            final(self).spec_core().preview_argb == old(self).spec_core().preview_argb,
            final(self).spec_address() == old(self).spec_address(),
    {
        self.core.snapshot_if_empty();
        self.end_stream();
    }
}

/// Every operation keeps the panel consistent, so the checks below always pass; they stand
/// where the trait's methods can state no precondition.
impl I2cSlave for Ssd1306I2c {
    /// As `on_address`.
    fn address(&mut self, addr7: u8, read: bool) -> (r: bool)
        ensures
            old(self).wf() ==> {
                &&& final(self).wf()
                &&& r == (addr7 == old(self).spec_address() && !read)
                &&& r ==> final(self).spec_core().stream_kind is None
                &&& !r ==> final(self).spec_core() == old(self).spec_core()
                &&& final(self).spec_core().preview_argb == old(self).spec_core().preview_argb
                &&& final(self).spec_core().latest_frame_argb == old(self).spec_core().latest_frame_argb
            },
            !old(self).wf() ==> !r && *final(self) == *old(self),
            final(self).spec_address() == old(self).spec_address(),
    {
        if !self.core.is_consistent() {
            return false;
        }
        self.on_address(addr7, read)
    }

    /// As `on_write_byte`.
    fn write_byte(&mut self, data: u8)
        ensures
            old(self).wf() ==> final(self).wf() && match old(self).spec_core().stream_kind {
                None => final(self).spec_core().stream_kind == Some(
                    if data & 0x40 != 0 { StreamKind::Data } else { StreamKind::Command },
                ) && final(self).spec_core().pending_cmd is None && final(self).spec_core().pending_left == 0
                    && final(self).spec_core().preview_argb == old(self).spec_core().preview_argb,
                Some(StreamKind::Command) => final(self).spec_core().regs() == command_step(
                    old(self).spec_core().regs(),
                    old(self).spec_core().width,
                    data,
                ) && final(self).spec_core().preview_argb == old(self).spec_core().preview_argb,
                Some(StreamKind::Data) => final(self).spec_core().regs() == advance(old(self).spec_core().regs()),
            },
            !old(self).wf() ==> *final(self) == *old(self),
            final(self).spec_address() == old(self).spec_address(),
    {
        if self.core.is_consistent() {
            self.on_write_byte(data);
        }
    }

    /// The panel is write-only: reads give 0.
    fn read_byte(&mut self) -> (r: u8)
        ensures
            r == 0,
    {
        0
    }

    /// As `on_stop`.
    fn stop(&mut self)
        ensures
            old(self).wf() ==> {
                &&& final(self).wf()
                &&& final(self).spec_core().stream_kind is None
                &&& frame_view(final(self).spec_core().latest_frame_argb) == if old(self).spec_core().latest_frame_argb is None {
                    Some(old(self).spec_core().preview_argb@)
                } else {
                    frame_view(old(self).spec_core().latest_frame_argb)
                }
                &&& final(self).spec_core().preview_argb == old(self).spec_core().preview_argb
            },
            !old(self).wf() ==> *final(self) == *old(self),
            final(self).spec_address() == old(self).spec_address(),
    {
        if self.core.is_consistent() {
            self.on_stop();
        }
    }

    /// Drops the current stream and any pending command; the panel's picture is kept.
    fn reset(&mut self)
        ensures
            final(self).spec_core() == (Ssd1306Core {
                stream_kind: None,
                pending_cmd: None,
                pending_left: 0,
                ..old(self).spec_core()
            }),
            final(self).spec_address() == old(self).spec_address(),
    {
        self.core.stream_kind = None;
        self.core.pending_cmd = None;
        self.core.pending_left = 0;
    }

    /// The snapshot waiting, if any, with the panel's size; it is taken.
    fn poll_frame(&mut self) -> (r: Option<FrameUpdate>)
        ensures
            match old(self).spec_core().latest_frame_argb {
                Some(px) => r matches Some(f) && f.width == old(self).spec_core().width
                    && f.height == old(self).spec_core().height && f.pixels == px,
                None => r is None,
            },
            final(self).spec_core().latest_frame_argb is None,
            final(self).spec_core().preview_argb == old(self).spec_core().preview_argb,
            final(self).spec_address() == old(self).spec_address(),
    {
        match self.core.latest_frame() {
            Some(pixels) => Some(FrameUpdate { width: self.core.width, height: self.core.height, pixels }),
            None => None,
        }
    }
}

} // verus!
