//! ST7789 TFT controller on SPI or FSMC: window commands, RGB565 RAM writes, frames.
use crate::bus::access::AccessWidth;
use crate::bus::traits::{FrameUpdate, GpioListener, ParallelDevice, SpiSlave};
use crate::peripherals::config::PinMapping;
use crate::peripherals::framebuf::{copy_words, filled_pixels, filled_words};
use crate::text::{ascii_upper, char_upper};
use vstd::prelude::*;

verus! {

/// Colour of a cleared preview pixel.
pub const PREVIEW_CLEAR: u32 = 0xFF00_0000;

/// A frame to be written out: its number and its RGB565 pixels.
#[derive(Debug, Clone)]
pub struct FrameDump {
    pub frame_id: u32,
    pub pixels: Vec<u16>,
}

/// A data byte `byte` sent to the controller in state `s` leaves `s2`: window parameters after
/// CASET/RASET, pixel data after RAMWR, nothing otherwise.
pub open spec fn data_step(s: St7789Core, byte: u8, s2: St7789Core) -> bool {
    &&& s2.wf()
    &&& s2.width == s.width
    &&& s2.height == s.height
    &&& s2.preview_enabled == s.preview_enabled
    &&& s2.dump_frames == s.dump_frames
    &&& s2.dc == s.dc
    &&& s2.cs_active == s.cs_active
    &&& s.current_cmd == Some(0x2Au8) ==> s2.regs() == window_regs(s.regs(), byte, true)
    &&& s.current_cmd == Some(0x2Bu8) ==> s2.regs() == window_regs(s.regs(), byte, false)
    &&& s.current_cmd == Some(0x2Cu8) ==> ramwr_post(s, byte, s2)
    &&& !(s.current_cmd == Some(0x2Au8) || s.current_cmd == Some(0x2Bu8) || s.current_cmd == Some(0x2Cu8))
        ==> s2.regs() == s.regs() && s2.framebuffer == s.framebuffer
}

/// `s2` is `s` after the command byte `cmd`: the command becomes current (see
/// `command_regs`) and nothing else changes.
pub open spec fn command_write_step(s: St7789Core, cmd: u8, s2: St7789Core) -> bool {
    &&& s2.regs() == command_regs(s.regs(), cmd)
    &&& s2.framebuffer == s.framebuffer
    &&& s2.preview_rgba == s.preview_rgba
    &&& s2.latest_frame_rgba == s.latest_frame_rgba
    &&& s2.pending_dumps == s.pending_dumps
    &&& s2.width == s.width
    &&& s2.height == s.height
    &&& s2.preview_enabled == s.preview_enabled
    &&& s2.dump_frames == s.dump_frames
    &&& s2.dc == s.dc
    &&& s2.cs_active == s.cs_active
}

/// ST7789 core: protocol state, the RGB565 frame buffer and an RGBA preview.
#[derive(Debug)]
pub struct St7789Core {
    pub width: u16,
    pub height: u16,
    pub framebuffer: Vec<u16>,
    pub output_dir: String,
    pub dump_frames: bool,
    pub frame_id: u32,
    pub current_cmd: Option<u8>,
    pub params_buf: [u8; 4],
    pub params_len: u8,
    pub window_x0: u16,
    pub window_x1: u16,
    pub window_y0: u16,
    pub window_y1: u16,
    pub cursor_x: u16,
    pub cursor_y: u16,
    pub pixel_hi: Option<u8>,
    pub ramwr_pixels_written: u32,
    pub latest_frame_rgba: Option<Vec<u32>>,
    pub preview_rgba: Vec<u32>,
    pub preview_enabled: bool,
    pub dc: bool,
    pub cs_active: bool,
    /// Frames finished while `dump_frames` is set, not yet written out.
    pub pending_dumps: Vec<FrameDump>,
}

/// The protocol registers, as plain values.
#[derive(Debug, Clone, Copy)]
pub struct St7789Regs {
    pub current_cmd: Option<u8>,
    pub params: (u8, u8, u8, u8),
    pub params_len: u8,
    pub window_x0: u16,
    pub window_x1: u16,
    pub window_y0: u16,
    pub window_y1: u16,
    pub cursor_x: u16,
    pub cursor_y: u16,
    pub pixel_hi: Option<u8>,
    pub ramwr_pixels_written: u32,
    pub frame_id: u32,
}

/// Big-endian 16-bit value of two bytes.
pub open spec fn be16(hi: u8, lo: u8) -> u16 {
    ((hi as u16) << 8u16) | (lo as u16)
}

/// The RGBA preview value of an RGB565 pixel: each channel widened by repeating its high bits,
/// R in the low byte, alpha opaque.
pub open spec fn rgba_of(p: u16) -> u32 {
    let r = (((p >> 11u16) & 0x1F) as u8) << 3u8;
    let g = (((p >> 5u16) & 0x3F) as u8) << 2u8;
    let b = ((p & 0x1F) as u8) << 3u8;
    ((r | (r >> 5u8)) as u32) | (((g | (g >> 6u8)) as u32) << 8u32) | (((b | (b >> 5u8)) as u32) << 16u32)
        | 0xFF00_0000
}

/// Parameter bytes after byte `byte` is stored at position `len` (positions 0..3).
pub open spec fn store_param(p: (u8, u8, u8, u8), len: u8, byte: u8) -> (u8, u8, u8, u8) {
    if len == 0 {
        (byte, p.1, p.2, p.3)
    } else if len == 1 {
        (p.0, byte, p.2, p.3)
    } else if len == 2 {
        (p.0, p.1, byte, p.3)
    } else if len == 3 {
        (p.0, p.1, p.2, byte)
    } else {
        p
    }
}

/// Registers after a command byte: the command becomes current and parameter collection
/// restarts; RAMWR (0x2C) also moves the cursor to the window origin.
pub open spec fn command_regs(r: St7789Regs, cmd: u8) -> St7789Regs {
    let r1 = St7789Regs { current_cmd: Some(cmd), params_len: 0, pixel_hi: None, ..r };
    if cmd == 0x2C {
        St7789Regs { cursor_x: r.window_x0, cursor_y: r.window_y0, ramwr_pixels_written: 0, ..r1 }
    } else {
        r1
    }
}

/// Registers after a parameter byte of CASET (0x2A) or RASET (0x2B): stored while fewer than
/// four are held; with four, they set the column or row window.
pub open spec fn window_regs(r: St7789Regs, byte: u8, columns: bool) -> St7789Regs {
    let r1 = if r.params_len < 4 {
        St7789Regs { params: store_param(r.params, r.params_len, byte), params_len: (r.params_len + 1) as u8, ..r }
    } else {
        r
    };
    if r1.params_len == 4 {
        let lo = be16(r1.params.0, r1.params.1);
        let hi = be16(r1.params.2, r1.params.3);
        if columns {
            St7789Regs { window_x0: lo, window_x1: hi, ..r1 }
        } else {
            St7789Regs { window_y0: lo, window_y1: hi, ..r1 }
        }
    } else {
        r1
    }
}

/// Cursor after a pixel: along the row to `window_x1`, then to the next row, wrapping to the
/// window origin after `window_y1` (which ends a frame).
pub open spec fn advance_cursor(r: St7789Regs) -> (u16, u16, bool) {
    if r.cursor_x < r.window_x1 {
        ((r.cursor_x + 1) as u16, r.cursor_y, false)
    } else if r.cursor_y < r.window_y1 {
        (r.window_x0, (r.cursor_y + 1) as u16, false)
    } else {
        (r.window_x0, r.window_y0, true)
    }
}

/// Frame-buffer index of the pixel at the cursor (clamped into the panel).
pub open spec fn pixel_index(r: St7789Regs, width: u16, height: u16) -> int {
    let wl: u16 = if width == 0 { 0 } else { (width - 1) as u16 };
    let hl: u16 = if height == 0 { 0 } else { (height - 1) as u16 };
    let x = if r.cursor_x < wl { r.cursor_x } else { wl };
    let y = if r.cursor_y < hl { r.cursor_y } else { hl };
    y * width + x
}

impl St7789Core {
    /// The protocol registers.
    pub open spec fn regs(&self) -> St7789Regs {
        St7789Regs {
            current_cmd: self.current_cmd,
            params: (self.params_buf[0], self.params_buf[1], self.params_buf[2], self.params_buf[3]),
            params_len: self.params_len,
            window_x0: self.window_x0,
            window_x1: self.window_x1,
            window_y0: self.window_y0,
            window_y1: self.window_y1,
            cursor_x: self.cursor_x,
            cursor_y: self.cursor_y,
            pixel_hi: self.pixel_hi,
            ramwr_pixels_written: self.ramwr_pixels_written,
            frame_id: self.frame_id,
        }
    }

    /// With the preview on, it has a pixel for every frame-buffer pixel.
    pub open spec fn wf(&self) -> bool {
        self.preview_enabled ==> self.preview_rgba@.len() == self.framebuffer@.len()
    }

    /// Whether the preview has a pixel for every frame-buffer pixel, when it is on.
    pub fn is_consistent(&self) -> (r: bool)
        ensures
            r == self.wf(),
    {
        !self.preview_enabled || self.preview_rgba.len() == self.framebuffer.len()
    }

    /// A controller with a blank `width` x `height` panel whose window is the whole panel.
    pub fn new(width: u16, height: u16, output_dir: String, dump_frames: bool, preview_enabled: bool) -> (r: Self)
        ensures
            r.wf(),
            r.width == width,
            r.height == height,
            r.framebuffer@ == Seq::new((width * height) as nat, |i: int| 0u16),
            r.preview_rgba@ == if preview_enabled {
                Seq::new((width * height) as nat, |i: int| 0u32)
            } else {
                Seq::empty()
            },
            r.regs() == (St7789Regs {
                current_cmd: None,
                params: (0, 0, 0, 0),
                params_len: 0,
                window_x0: 0,
                window_x1: if width == 0 { 0 } else { (width - 1) as u16 },
                window_y0: 0,
                window_y1: if height == 0 { 0 } else { (height - 1) as u16 },
                cursor_x: 0,
                cursor_y: 0,
                pixel_hi: None,
                ramwr_pixels_written: 0,
                frame_id: 0,
            }),
            r.output_dir@ == output_dir@,
            r.dump_frames == dump_frames,
            r.preview_enabled == preview_enabled,
            !r.dc,
            !r.cs_active,
            r.latest_frame_rgba is None,
            r.pending_dumps@.len() == 0,
    {
        assert(width as int * height as int <= 0xFFFF * 0xFFFF) by (nonlinear_arith)
            requires
                width <= 0xFFFF,
                height <= 0xFFFF,
        ;
        let n = (width as usize) * (height as usize);
        St7789Core {
            width,
            height,
            framebuffer: filled_words(n, 0),
            output_dir,
            dump_frames,
            frame_id: 0,
            current_cmd: None,
            params_buf: [0, 0, 0, 0],
            params_len: 0,
            window_x0: 0,
            window_x1: width.saturating_sub(1),
            window_y0: 0,
            window_y1: height.saturating_sub(1),
            cursor_x: 0,
            cursor_y: 0,
            pixel_hi: None,
            dc: false,
            cs_active: false,
            ramwr_pixels_written: 0,
            latest_frame_rgba: None,
            preview_rgba: if preview_enabled { filled_pixels(n, 0) } else { Vec::new() },
            preview_enabled,
            pending_dumps: Vec::new(),
        }
    }

    /// Takes a command byte.
    pub fn write_command(&mut self, cmd: u8)
        ensures
            command_write_step(*old(self), cmd, *final(self)),
    {
        self.current_cmd = Some(cmd);
        self.params_len = 0;
        self.pixel_hi = None;
        if cmd == 0x2C {
            self.cursor_x = self.window_x0;
            self.cursor_y = self.window_y0;
            self.ramwr_pixels_written = 0;
        }
    }

    /// Stores a window parameter byte.
    fn window_param(&mut self, byte: u8, columns: bool)
        ensures
            final(self).regs() == window_regs(old(self).regs(), byte, columns),
            final(self).framebuffer == old(self).framebuffer,
            final(self).preview_rgba == old(self).preview_rgba,
            final(self).latest_frame_rgba == old(self).latest_frame_rgba,
            final(self).pending_dumps == old(self).pending_dumps,
            final(self).width == old(self).width,
            final(self).height == old(self).height,
            final(self).preview_enabled == old(self).preview_enabled,
            final(self).dump_frames == old(self).dump_frames,
            final(self).dc == old(self).dc,
            final(self).cs_active == old(self).cs_active,
    {
        let len = self.params_len;
        if len < 4 {
            let p = self.params_buf;
            self.params_buf = if len == 0 {
                [byte, p[1], p[2], p[3]]
            } else if len == 1 {
                [p[0], byte, p[2], p[3]]
            } else if len == 2 {
                [p[0], p[1], byte, p[3]]
            } else {
                [p[0], p[1], p[2], byte]
            };
            self.params_len = len + 1;
        }
        if self.params_len == 4 {
            let p = self.params_buf;
            let lo = ((p[0] as u16) << 8u16) | (p[1] as u16);
            let hi = ((p[2] as u16) << 8u16) | (p[3] as u16);
            if columns {
                self.window_x0 = lo;
                self.window_x1 = hi;
            } else {
                self.window_y0 = lo;
                self.window_y1 = hi;
            }
        }
    }

    /// Takes a data byte: a window parameter of CASET/RASET, or half of a pixel of RAMWR.
    pub fn write_data(&mut self, byte: u8)
        requires
            old(self).wf(),
        ensures
            data_step(*old(self), byte, *final(self)),
    {
        match self.current_cmd {
            Some(c) => {
                if c == 0x2A {
                    self.window_param(byte, true);
                } else if c == 0x2B {
                    self.window_param(byte, false);
                } else if c == 0x2C {
                    self.on_ramwr_data(byte);
                }
            },
            None => {},
        }
    }

    /// Ends a frame: with the preview on it becomes the latest frame and a cleared preview
    /// starts; with dumping on, the frame buffer is kept for writing out; the frame count
    /// advances (wrapping).
    fn emit_frame(&mut self)
        requires
            old(self).wf(),
        ensures
            final(self).wf(),
            emit_post(*old(self), *final(self)),
    {
        if self.preview_enabled {
            let len = self.preview_rgba.len();
            let mut fresh = filled_pixels(len, PREVIEW_CLEAR);
            std::mem::swap(&mut self.preview_rgba, &mut fresh);
            self.latest_frame_rgba = Some(fresh);
        }
        if self.dump_frames {
            let pixels = copy_words(&self.framebuffer);
            self.pending_dumps.push(FrameDump { frame_id: self.frame_id, pixels });
            assert(self.pending_dumps@.take(old(self).pending_dumps@.len() as int) =~= old(self).pending_dumps@);
        }
        self.frame_id = self.frame_id.wrapping_add(1);
        assert(self.regs() == St7789Regs { frame_id: old(self).frame_id.wrapping_add(1), ..old(self).regs() });
    }

    fn on_ramwr_data(&mut self, byte: u8)
        requires
            old(self).wf(),
        ensures
            final(self).wf(),
            ramwr_post(*old(self), byte, *final(self)),
            final(self).width == old(self).width,
            final(self).height == old(self).height,
            final(self).preview_enabled == old(self).preview_enabled,
            final(self).dump_frames == old(self).dump_frames,
            final(self).dc == old(self).dc,
            final(self).cs_active == old(self).cs_active,
    {
        let hi = match self.pixel_hi {
            None => {
                self.pixel_hi = Some(byte);
                return;
            },
            Some(h) => h,
        };
        self.pixel_hi = None;
        let pixel = ((hi as u16) << 8u16) | (byte as u16);
        let wl = self.width.saturating_sub(1);
        let hl = self.height.saturating_sub(1);
        let x = if self.cursor_x < wl { self.cursor_x } else { wl };
        let y = if self.cursor_y < hl { self.cursor_y } else { hl };
        assert(y as int * self.width as int <= 0xFFFF * 0xFFFF) by (nonlinear_arith)
            requires
                y <= 0xFFFF,
                self.width <= 0xFFFF,
        ;
        let idx = (y as usize) * (self.width as usize) + (x as usize);
        let ghost s1 = *self;
        if idx < self.framebuffer.len() {
            self.framebuffer.set(idx, pixel);
            if self.preview_enabled {
                self.preview_rgba.set(idx, rgb565_to_rgba(pixel));
            }
        }
        let ghost s2 = *self;
        self.ramwr_pixels_written = self.ramwr_pixels_written.saturating_add(1);
        if self.preview_enabled && self.ramwr_pixels_written % 1024 == 0 {
            if self.latest_frame_rgba.is_none() {
                let len = self.preview_rgba.len();
                let mut fresh = filled_pixels(len, PREVIEW_CLEAR);
                std::mem::swap(&mut self.preview_rgba, &mut fresh);
                self.latest_frame_rgba = Some(fresh);
            }
        }
        let ghost s3 = *self;
        if self.cursor_x < self.window_x1 {
            self.cursor_x = self.cursor_x + 1;
        } else {
            self.cursor_x = self.window_x0;
            if self.cursor_y < self.window_y1 {
                self.cursor_y = self.cursor_y + 1;
            } else {
                self.cursor_y = self.window_y0;
                self.emit_frame();
            }
        }
        assert(pixel == be16(hi, byte));
        assert(ramwr_post(*old(self), byte, *self));
    }

    /// Takes the latest frame, if there is one.
    pub fn latest_frame(&mut self) -> (r: Option<Vec<u32>>)
        ensures
            r == old(self).latest_frame_rgba,
            final(self).latest_frame_rgba is None,
            final(self).regs() == old(self).regs(),
            final(self).framebuffer == old(self).framebuffer,
            final(self).preview_rgba == old(self).preview_rgba,
            final(self).pending_dumps == old(self).pending_dumps,
            final(self).width == old(self).width,
            final(self).height == old(self).height,
            final(self).preview_enabled == old(self).preview_enabled,
            final(self).dump_frames == old(self).dump_frames,
            final(self).dc == old(self).dc,
            final(self).cs_active == old(self).cs_active,
    {
        self.latest_frame_rgba.take()
    }

    /// Takes the frames waiting to be written out, oldest first.
    pub fn take_frame_dumps(&mut self) -> (r: Vec<FrameDump>)
        ensures
            r == old(self).pending_dumps,
            final(self).pending_dumps@.len() == 0,
            final(self).regs() == old(self).regs(),
            final(self).framebuffer == old(self).framebuffer,
            final(self).preview_rgba == old(self).preview_rgba,
            final(self).latest_frame_rgba == old(self).latest_frame_rgba,
            final(self).width == old(self).width,
            final(self).height == old(self).height,
            final(self).preview_enabled == old(self).preview_enabled,
            final(self).dump_frames == old(self).dump_frames,
            final(self).dc == old(self).dc,
            final(self).cs_active == old(self).cs_active,
    {
        let mut out: Vec<FrameDump> = Vec::new();
        std::mem::swap(&mut out, &mut self.pending_dumps);
        out
    }
}

/// What a frame end does to the core.
pub open spec fn emit_post(s: St7789Core, t: St7789Core) -> bool {
    &&& t.regs() == St7789Regs { frame_id: s.frame_id.wrapping_add(1), ..s.regs() }
    &&& t.framebuffer == s.framebuffer
    &&& t.width == s.width && t.height == s.height
    &&& t.preview_enabled == s.preview_enabled && t.dump_frames == s.dump_frames
    &&& t.dc == s.dc && t.cs_active == s.cs_active
    &&& if s.preview_enabled {
        &&& t.latest_frame_rgba matches Some(f) && f@ == s.preview_rgba@
        &&& t.preview_rgba@ == Seq::new(s.preview_rgba@.len(), |i: int| PREVIEW_CLEAR)
    } else {
        t.latest_frame_rgba == s.latest_frame_rgba && t.preview_rgba == s.preview_rgba
    }
    &&& if s.dump_frames {
        &&& t.pending_dumps@.len() == s.pending_dumps@.len() + 1
        &&& t.pending_dumps@.take(s.pending_dumps@.len() as int) == s.pending_dumps@
        &&& t.pending_dumps@.last().frame_id == s.frame_id
        &&& t.pending_dumps@.last().pixels@ == s.framebuffer@
    } else {
        t.pending_dumps == s.pending_dumps
    }
}

/// What a RAMWR data byte does: the first byte of a pixel is held; the second completes the
/// RGB565 pixel, stored at the cursor (and in the preview), counted (every 1024th pixel
/// snapshots the preview when no frame is waiting), and the cursor advances, ending a frame
/// after the window's last pixel.
pub open spec fn ramwr_post(s: St7789Core, byte: u8, t: St7789Core) -> bool {
    match s.pixel_hi {
        None => t.regs() == St7789Regs { pixel_hi: Some(byte), ..s.regs() } && t.framebuffer == s.framebuffer
            && t.preview_rgba == s.preview_rgba && t.latest_frame_rgba == s.latest_frame_rgba && t.pending_dumps
            == s.pending_dumps,
        Some(hi) => {
            let pixel = be16(hi, byte);
            let idx = pixel_index(s.regs(), s.width, s.height);
            let written = idx < s.framebuffer@.len();
            let fb = if written { s.framebuffer@.update(idx, pixel) } else { s.framebuffer@ };
            let pv = if written && s.preview_enabled { s.preview_rgba@.update(idx, rgba_of(pixel)) } else { s.preview_rgba@ };
            let n: u32 = if s.ramwr_pixels_written == u32::MAX { u32::MAX } else { (s.ramwr_pixels_written + 1) as u32 };
            let snap = s.preview_enabled && n % 1024 == 0 && s.latest_frame_rgba is None;
            let (cx, cy, frame_end) = advance_cursor(s.regs());
            &&& t.framebuffer@ == fb
            &&& t.regs().cursor_x == cx && t.regs().cursor_y == cy
            &&& t.regs().ramwr_pixels_written == n
            &&& t.regs().pixel_hi is None
            &&& t.regs().frame_id == if frame_end { s.frame_id.wrapping_add(1) } else { s.frame_id }
            &&& t.regs().current_cmd == s.current_cmd && t.regs().params == s.regs().params
                && t.params_len == s.params_len
            &&& t.window_x0 == s.window_x0 && t.window_x1 == s.window_x1 && t.window_y0 == s.window_y0
                && t.window_y1 == s.window_y1
            &&& !frame_end ==> {
                &&& t.pending_dumps == s.pending_dumps
                &&& if snap {
                    t.latest_frame_rgba matches Some(f) && f@ == pv && t.preview_rgba@ == Seq::new(pv.len(), |i: int| PREVIEW_CLEAR)
                } else {
                    t.latest_frame_rgba == s.latest_frame_rgba && t.preview_rgba@ == pv
                }
            }
            &&& frame_end && s.preview_enabled ==> t.preview_rgba@ == Seq::new(pv.len(), |i: int| PREVIEW_CLEAR)
                && (t.latest_frame_rgba matches Some(f) && f@ == (if snap { Seq::new(pv.len(), |i: int| PREVIEW_CLEAR) } else { pv }))
            &&& frame_end && !s.preview_enabled ==> t.latest_frame_rgba == s.latest_frame_rgba && t.preview_rgba
                == s.preview_rgba
            &&& frame_end && s.dump_frames ==> t.pending_dumps@.len() == s.pending_dumps@.len() + 1
                && t.pending_dumps@.take(s.pending_dumps@.len() as int) == s.pending_dumps@
                && t.pending_dumps@.last().frame_id == s.frame_id && t.pending_dumps@.last().pixels@ == fb
            &&& frame_end && !s.dump_frames ==> t.pending_dumps == s.pending_dumps
        },
    }
}

/// The RGBA preview value of an RGB565 pixel.
fn rgb565_to_rgba(p: u16) -> (r: u32)
    ensures
        r == rgba_of(p),
{
    let r = (((p >> 11u16) & 0x1F) as u8) << 3u8;
    let g = (((p >> 5u16) & 0x3F) as u8) << 2u8;
    let b = ((p & 0x1F) as u8) << 3u8;
    ((r | (r >> 5u8)) as u32) | (((g | (g >> 6u8)) as u32) << 8u32) | (((b | (b >> 5u8)) as u32) << 16u32) | 0xFF00_0000
}

/// ST7789 display with its chip-select and data/command pins.
#[derive(Debug)]
pub struct St7789 {
    core: St7789Core,
    cs: PinMapping,
    dc: PinMapping,
    res: Option<PinMapping>,
}

/// The port letter a pin mapping names: the first character of its port (or NUL), upper-case.
pub open spec fn mapped_port(port: Seq<char>) -> char {
    ascii_upper(if port.len() > 0 { port[0] } else { '\0' })
}

impl St7789 {
    pub closed spec fn spec_core(&self) -> St7789Core {
        self.core
    }

    pub closed spec fn spec_cs(&self) -> (char, u8) {
        (mapped_port(self.cs.port@), self.cs.pin)
    }

    pub closed spec fn spec_dc(&self) -> (char, u8) {
        (mapped_port(self.dc.port@), self.dc.pin)
    }

    /// A display on SPI with the given pins; `spi_base` is not used by the controller.
    pub fn new(
        width: u16,
        height: u16,
        spi_base: u64,
        cs: PinMapping,
        dc: PinMapping,
        res: Option<PinMapping>,
        output_dir: String,
        dump_frames: bool,
        preview_enabled: bool,
    ) -> (r: Self)
        ensures
            r.spec_core().wf(),
            r.spec_core().width == width,
            r.spec_core().height == height,
            r.spec_core().preview_enabled == preview_enabled,
            r.spec_core().dump_frames == dump_frames,
            !r.spec_core().cs_active,
            !r.spec_core().dc,
            r.spec_cs() == (mapped_port(cs.port@), cs.pin),
            r.spec_dc() == (mapped_port(dc.port@), dc.pin),
    {
        St7789 { core: St7789Core::new(width, height, output_dir, dump_frames, preview_enabled), cs, dc, res }
    }

    /// Takes the latest frame, if there is one.
    pub fn latest_frame(&mut self) -> (r: Option<Vec<u32>>)
        ensures
            r == old(self).spec_core().latest_frame_rgba,
            final(self).spec_core().latest_frame_rgba is None,
            final(self).spec_core().width == old(self).spec_core().width,
            final(self).spec_core().height == old(self).spec_core().height,
    {
        self.core.latest_frame()
    }

    /// Takes the frames waiting to be written out.
    pub fn take_frame_dumps(&mut self) -> (r: Vec<FrameDump>)
        ensures
            r == old(self).spec_core().pending_dumps,
            final(self).spec_core().pending_dumps@.len() == 0,
    {
        self.core.take_frame_dumps()
    }

    pub fn width(&self) -> (r: u16)
        ensures
            r == self.spec_core().width,
    {
        self.core.width
    }

    pub fn height(&self) -> (r: u16)
        ensures
            r == self.spec_core().height,
    {
        self.core.height
    }

    fn port_of(p: &PinMapping) -> (r: char)
        ensures
            r == mapped_port(p.port@),
    {
        let s = p.port.as_str();
        let c = if s.unicode_len() > 0 { s.get_char(0) } else { '\0' };
        char_upper(c)
    }

    /// A GPIO pin changed: chip select is active low, data/command high selects data.
    pub fn on_pin(&mut self, port: char, pin: u8, high: bool)
        ensures
            final(self).spec_core().cs_active == if (ascii_upper(port), pin) == old(self).spec_cs() {
                !high
            } else {
                old(self).spec_core().cs_active
            },
            final(self).spec_core().dc == if (ascii_upper(port), pin) == old(self).spec_dc() {
                high
            } else {
                old(self).spec_core().dc
            },
            final(self).spec_core().regs() == old(self).spec_core().regs(),
            final(self).spec_core().framebuffer == old(self).spec_core().framebuffer,
            final(self).spec_core().preview_rgba == old(self).spec_core().preview_rgba,
            final(self).spec_core().preview_enabled == old(self).spec_core().preview_enabled,
            final(self).spec_core().width == old(self).spec_core().width,
            final(self).spec_core().height == old(self).spec_core().height,
            final(self).spec_cs() == old(self).spec_cs(),
            final(self).spec_dc() == old(self).spec_dc(),
    {
        let pu = char_upper(port);
        if pu == Self::port_of(&self.cs) && pin == self.cs.pin {
            self.core.cs_active = !high;
        }
        if pu == Self::port_of(&self.dc) && pin == self.dc.pin {
            self.core.dc = high;
        }
    }

    /// An SPI byte: ignored unless selected; data or command by the data/command line.
    pub fn on_spi_byte(&mut self, mosi: u8)
        requires
            old(self).spec_core().wf(),
        ensures
            final(self).spec_core().wf(),
            !old(self).spec_core().cs_active ==> final(self).spec_core() == old(self).spec_core(),
            old(self).spec_core().cs_active && !old(self).spec_core().dc ==> command_write_step(
                old(self).spec_core(),
                mosi,
                final(self).spec_core(),
            ),
            old(self).spec_core().cs_active && old(self).spec_core().dc ==> data_step(old(self).spec_core(), mosi, final(self).spec_core()),
            final(self).spec_core().cs_active == old(self).spec_core().cs_active,
            final(self).spec_core().dc == old(self).spec_core().dc,
            final(self).spec_cs() == old(self).spec_cs(),
            final(self).spec_dc() == old(self).spec_dc(),
    {
        if !self.core.cs_active {
            return;
        }
        if self.core.dc {
            self.core.write_data(mosi);
        } else {
            self.core.write_command(mosi);
        }
    }

    /// An FSMC write: address bit 0 selects data (1) or command (0); the low byte is sent.
    pub fn on_fsmc_write(&mut self, addr: u32, data: u32)
        requires
            old(self).spec_core().wf(),
        ensures
            final(self).spec_core().wf(),
            addr & 1 == 0 ==> command_write_step(old(self).spec_core(), (data & 0xFF) as u8, final(self).spec_core()),
            addr & 1 == 1 ==> data_step(old(self).spec_core(), (data & 0xFF) as u8, final(self).spec_core()),
            final(self).spec_core().width == old(self).spec_core().width,
            final(self).spec_core().height == old(self).spec_core().height,
            final(self).spec_cs() == old(self).spec_cs(),
            final(self).spec_dc() == old(self).spec_dc(),
    {
        let byte = (data & 0xFF) as u8;
        if (addr & 1) == 1 {
            self.core.write_data(byte);
        } else {
            self.core.write_command(byte);
        }
    }

    /// Drops the protocol state; the frame buffer and dimensions stay.
    fn reset_protocol(&mut self)
        ensures
            final(self).spec_core().regs() == (St7789Regs {
                current_cmd: None,
                params_len: 0,
                pixel_hi: None,
                ..old(self).spec_core().regs()
            }),
            final(self).spec_core().framebuffer == old(self).spec_core().framebuffer,
            final(self).spec_core().preview_rgba == old(self).spec_core().preview_rgba,
            final(self).spec_core().preview_enabled == old(self).spec_core().preview_enabled,
    {
        self.core.current_cmd = None;
        self.core.params_len = 0;
        self.core.pixel_hi = None;
    }

    /// The latest frame, if there is one, with the panel's size.
    fn take_frame_update(&mut self) -> (r: Option<FrameUpdate>)
        ensures
            match old(self).spec_core().latest_frame_rgba {
                Some(px) => r matches Some(f) && f.width == old(self).spec_core().width
                    && f.height == old(self).spec_core().height && f.pixels == px,
                None => r is None,
            },
            final(self).spec_core().latest_frame_rgba is None,
    {
        match self.core.latest_frame() {
            Some(pixels) => Some(FrameUpdate { width: self.core.width, height: self.core.height, pixels }),
            None => None,
        }
    }
}

/// Every operation keeps the preview matched to the frame buffer, so the consistency checks
/// below always pass; they stand where the traits' methods can state no precondition.
impl SpiSlave for St7789 {
    /// The display sends nothing back: MISO is 0. The byte is taken as `on_spi_byte` takes it.
    fn transfer(&mut self, mosi: u8) -> (r: u8)
        ensures
            r == 0,
            old(self).spec_core().wf() ==> {
                &&& final(self).spec_core().wf()
                &&& !old(self).spec_core().cs_active ==> final(self).spec_core() == old(self).spec_core()
                &&& old(self).spec_core().cs_active && !old(self).spec_core().dc ==> command_write_step(
                    old(self).spec_core(),
                    mosi,
                    final(self).spec_core(),
                )
                &&& old(self).spec_core().cs_active && old(self).spec_core().dc ==> data_step(
                    old(self).spec_core(),
                    mosi,
                    final(self).spec_core(),
                )
            },
            !old(self).spec_core().wf() ==> *final(self) == *old(self),
            final(self).spec_cs() == old(self).spec_cs(),
            final(self).spec_dc() == old(self).spec_dc(),
    {
        if self.core.is_consistent() {
            self.on_spi_byte(mosi);
        }
        0
    }

    fn chip_select(&mut self, active: bool) {
        self.core.cs_active = active;
    }

    fn reset(&mut self) {
        self.reset_protocol();
    }

    fn poll_frame(&mut self) -> Option<FrameUpdate> {
        self.take_frame_update()
    }

    fn gpio_pin_changed(&mut self, port: char, pin: u8, high: bool) {
        self.on_pin(port, pin, high);
    }
}

impl GpioListener for St7789 {
    fn pin_changed(&mut self, port: char, pin: u8, high: bool) {
        self.on_pin(port, pin, high);
    }
}

impl ParallelDevice for St7789 {
    /// A write of the FSMC window, taken as `on_fsmc_write` takes it.
    fn write(&mut self, addr: u32, data: u32, width: AccessWidth)
        ensures
            old(self).spec_core().wf() ==> {
                &&& final(self).spec_core().wf()
                &&& addr & 1 == 0 ==> command_write_step(old(self).spec_core(), (data & 0xFF) as u8, final(self).spec_core())
                &&& addr & 1 == 1 ==> data_step(old(self).spec_core(), (data & 0xFF) as u8, final(self).spec_core())
            },
            !old(self).spec_core().wf() ==> *final(self) == *old(self),
            final(self).spec_cs() == old(self).spec_cs(),
            final(self).spec_dc() == old(self).spec_dc(),
    {
        if self.core.is_consistent() {
            self.on_fsmc_write(addr, data);
        }
    }

    /// The display is write-only: reads give 0.
    fn read(&mut self, addr: u32, width: AccessWidth) -> u32 {
        0
    }

    fn reset(&mut self) {
        self.reset_protocol();
    }

    fn poll_frame(&mut self) -> Option<FrameUpdate> {
        self.take_frame_update()
    }
}

} // verus!
