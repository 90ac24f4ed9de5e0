//! The linear framebuffer: its geometry, the font drawn into it and the
//! colours of the text screen as pixels.

use vstd::prelude::*;
use vstd::string::*;
use crate::bootvga::vga_buffer::Color;
use crate::bytes::le_bytes32;
use crate::driver_framework::drivers::console::{
    all_wf, cleared_first, console_clear_first, console_print_first, console_set_colors_first,
    console_set_cursor_first, cursor_set_first, printed_first, recoloured_first, ConsoleSet,
};
use crate::driver_framework::device::{DeviceInfo, Resource, ResourceKind};

verus! {

/// The geometry of a framebuffer.
#[derive(Debug, Clone, Copy, PartialEq, Eq, Structural)]
pub struct FramebufferInfo {
    pub width: u32,
    pub height: u32,
    /// Bits per pixel.
    pub bpp: u32,
    /// Bytes from one row of pixels to the next.
    pub pitch: usize,
}

/// The first character that the font has a glyph for.
pub const FIRST_GLYPH: u8 = 0x20;

/// How many glyphs the font has.
pub const GLYPH_COUNT: u8 = 95;

/// The glyphs of the characters from [`FIRST_GLYPH`] on: eight rows of
/// eight pixels each, the leftmost pixel in the top bit.
pub const FONT8X8: [[u8; 8]; 95] = [
    [0x00, 0x00, 0x00, 0x00, 0x00, 0x00, 0x00, 0x00],
    [0x18, 0x3c, 0x3c, 0x18, 0x18, 0x00, 0x18, 0x00],
    [0x6c, 0x6c, 0x48, 0x00, 0x00, 0x00, 0x00, 0x00],
    [0x6c, 0x6c, 0xfe, 0x6c, 0xfe, 0x6c, 0x6c, 0x00],
    [0x18, 0x3e, 0x60, 0x3c, 0x06, 0x7c, 0x18, 0x00],
    [0x00, 0xc6, 0xcc, 0x18, 0x30, 0x66, 0xc6, 0x00],
    [0x38, 0x6c, 0x38, 0x76, 0xdc, 0xcc, 0x76, 0x00],
    [0x30, 0x30, 0x60, 0x00, 0x00, 0x00, 0x00, 0x00],
    [0x0c, 0x18, 0x30, 0x30, 0x30, 0x18, 0x0c, 0x00],
    [0x30, 0x18, 0x0c, 0x0c, 0x0c, 0x18, 0x30, 0x00],
    [0x00, 0x66, 0x3c, 0xff, 0x3c, 0x66, 0x00, 0x00],
    [0x00, 0x18, 0x18, 0x7e, 0x18, 0x18, 0x00, 0x00],
    [0x00, 0x00, 0x00, 0x00, 0x00, 0x18, 0x18, 0x30],
    [0x00, 0x00, 0x00, 0x7e, 0x00, 0x00, 0x00, 0x00],
    [0x00, 0x00, 0x00, 0x00, 0x00, 0x18, 0x18, 0x00],
    [0x06, 0x0c, 0x18, 0x30, 0x60, 0xc0, 0x80, 0x00],
    [0x7c, 0xc6, 0xce, 0xd6, 0xe6, 0xc6, 0x7c, 0x00],
    [0x18, 0x38, 0x18, 0x18, 0x18, 0x18, 0x7e, 0x00],
    [0x7c, 0xc6, 0x06, 0x1c, 0x30, 0x66, 0xfe, 0x00],
    [0x7c, 0xc6, 0x06, 0x3c, 0x06, 0xc6, 0x7c, 0x00],
    [0x0c, 0x1c, 0x3c, 0x6c, 0xfe, 0x0c, 0x1e, 0x00],
    [0xfe, 0xc0, 0xc0, 0xfc, 0x06, 0xc6, 0x7c, 0x00],
    [0x3c, 0x60, 0xc0, 0xfc, 0xc6, 0xc6, 0x7c, 0x00],
    [0xfe, 0xc6, 0x0c, 0x18, 0x30, 0x30, 0x30, 0x00],
    [0x7c, 0xc6, 0xc6, 0x7c, 0xc6, 0xc6, 0x7c, 0x00],
    [0x7c, 0xc6, 0xc6, 0x7e, 0x06, 0x0c, 0x78, 0x00],
    [0x00, 0x18, 0x18, 0x00, 0x00, 0x18, 0x18, 0x00],
    [0x00, 0x18, 0x18, 0x00, 0x00, 0x18, 0x18, 0x30],
    [0x0e, 0x1c, 0x38, 0x70, 0x38, 0x1c, 0x0e, 0x00],
    [0x00, 0x00, 0x7e, 0x00, 0x00, 0x7e, 0x00, 0x00],
    [0x70, 0x38, 0x1c, 0x0e, 0x1c, 0x38, 0x70, 0x00],
    [0x7c, 0xc6, 0x0e, 0x1c, 0x18, 0x00, 0x18, 0x00],
    [0x7c, 0xc6, 0xde, 0xde, 0xde, 0xc0, 0x78, 0x00],
    [0x10, 0x38, 0x6c, 0xc6, 0xfe, 0xc6, 0xc6, 0x00],
    [0xfc, 0x66, 0x66, 0x7c, 0x66, 0x66, 0xfc, 0x00],
    [0x3c, 0x66, 0xc0, 0xc0, 0xc0, 0x66, 0x3c, 0x00],
    [0xf8, 0x6c, 0x66, 0x66, 0x66, 0x6c, 0xf8, 0x00],
    [0xfe, 0x62, 0x68, 0x78, 0x68, 0x62, 0xfe, 0x00],
    [0xfe, 0x62, 0x68, 0x78, 0x68, 0x60, 0xf0, 0x00],
    [0x3c, 0x66, 0xc0, 0xc0, 0xce, 0x66, 0x3c, 0x00],
    [0xc6, 0xc6, 0xc6, 0xfe, 0xc6, 0xc6, 0xc6, 0x00],
    [0x7e, 0x18, 0x18, 0x18, 0x18, 0x18, 0x7e, 0x00],
    [0x1e, 0x0c, 0x0c, 0x0c, 0xcc, 0xcc, 0x78, 0x00],
    [0xe6, 0x66, 0x6c, 0x78, 0x6c, 0x66, 0xe6, 0x00],
    [0xf0, 0x60, 0x60, 0x60, 0x62, 0x66, 0xfe, 0x00],
    [0xc6, 0xee, 0xfe, 0xfe, 0xd6, 0xc6, 0xc6, 0x00],
    [0xc6, 0xe6, 0xf6, 0xde, 0xce, 0xc6, 0xc6, 0x00],
    [0x7c, 0xc6, 0xc6, 0xc6, 0xc6, 0xc6, 0x7c, 0x00],
    [0xfc, 0x66, 0x66, 0x7c, 0x60, 0x60, 0xf0, 0x00],
    [0x7c, 0xc6, 0xc6, 0xc6, 0xd6, 0xcc, 0x7a, 0x00],
    [0xfc, 0x66, 0x66, 0x7c, 0x6c, 0x66, 0xe6, 0x00],
    [0x7c, 0xc6, 0xc0, 0x7c, 0x06, 0xc6, 0x7c, 0x00],
    [0xff, 0x99, 0x18, 0x18, 0x18, 0x18, 0x3c, 0x00],
    [0xc6, 0xc6, 0xc6, 0xc6, 0xc6, 0xc6, 0x7c, 0x00],
    [0xc6, 0xc6, 0xc6, 0xc6, 0xc6, 0x6c, 0x38, 0x00],
    [0xc6, 0xc6, 0xc6, 0xd6, 0xfe, 0xee, 0xc6, 0x00],
    [0xc6, 0x6c, 0x38, 0x10, 0x38, 0x6c, 0xc6, 0x00],
    [0xcc, 0xcc, 0x98, 0x30, 0x30, 0x30, 0x78, 0x00],
    [0xfe, 0xce, 0x9c, 0x38, 0x70, 0xe6, 0xfe, 0x00],
    [0x3c, 0x30, 0x30, 0x30, 0x30, 0x30, 0x3c, 0x00],
    [0xc0, 0x60, 0x30, 0x18, 0x0c, 0x06, 0x02, 0x00],
    [0x3c, 0x0c, 0x0c, 0x0c, 0x0c, 0x0c, 0x3c, 0x00],
    [0x10, 0x38, 0x6c, 0xc6, 0x00, 0x00, 0x00, 0x00],
    [0x00, 0x00, 0x00, 0x00, 0x00, 0x00, 0x00, 0xff],
    [0x30, 0x18, 0x0c, 0x00, 0x00, 0x00, 0x00, 0x00],
    [0x00, 0x00, 0x78, 0x0c, 0x7c, 0xcc, 0x76, 0x00],
    [0xe0, 0x60, 0x7c, 0x66, 0x66, 0x66, 0xdc, 0x00],
    [0x00, 0x00, 0x7c, 0xc0, 0xc0, 0xc0, 0x7c, 0x00],
    [0x1c, 0x0c, 0x7c, 0xcc, 0xcc, 0xcc, 0x76, 0x00],
    [0x00, 0x00, 0x7c, 0xc6, 0xfe, 0xc0, 0x7c, 0x00],
    [0x3c, 0x66, 0x60, 0xf8, 0x60, 0x60, 0xf0, 0x00],
    [0x00, 0x00, 0x76, 0xcc, 0xcc, 0x7c, 0x0c, 0xf8],
    [0xe0, 0x60, 0x6c, 0x76, 0x66, 0x66, 0xe6, 0x00],
    [0x18, 0x00, 0x38, 0x18, 0x18, 0x18, 0x3c, 0x00],
    [0x0c, 0x00, 0x1c, 0x0c, 0x0c, 0xcc, 0xcc, 0x78],
    [0xe0, 0x60, 0x66, 0x6c, 0x78, 0x6c, 0xe6, 0x00],
    [0x38, 0x18, 0x18, 0x18, 0x18, 0x18, 0x3c, 0x00],
    [0x00, 0x00, 0xec, 0xfe, 0xd6, 0xd6, 0xd6, 0x00],
    [0x00, 0x00, 0xdc, 0x66, 0x66, 0x66, 0x66, 0x00],
    [0x00, 0x00, 0x7c, 0xc6, 0xc6, 0xc6, 0x7c, 0x00],
    [0x00, 0x00, 0xdc, 0x66, 0x66, 0x7c, 0x60, 0xf0],
    [0x00, 0x00, 0x76, 0xcc, 0xcc, 0x7c, 0x0c, 0x1e],
    [0x00, 0x00, 0xdc, 0x76, 0x60, 0x60, 0xf0, 0x00],
    [0x00, 0x00, 0x7e, 0xc0, 0x7c, 0x06, 0xfc, 0x00],
    [0x30, 0x30, 0xfc, 0x30, 0x30, 0x36, 0x1c, 0x00],
    [0x00, 0x00, 0xcc, 0xcc, 0xcc, 0xcc, 0x76, 0x00],
    [0x00, 0x00, 0xc6, 0xc6, 0xc6, 0x6c, 0x38, 0x00],
    [0x00, 0x00, 0xc6, 0xd6, 0xd6, 0xfe, 0x6c, 0x00],
    [0x00, 0x00, 0xc6, 0x6c, 0x38, 0x6c, 0xc6, 0x00],
    [0x00, 0x00, 0xc6, 0xc6, 0xc6, 0x7e, 0x06, 0xfc],
    [0x00, 0x00, 0xfe, 0x8c, 0x18, 0x32, 0xfe, 0x00],
    [0x0e, 0x18, 0x18, 0x70, 0x18, 0x18, 0x0e, 0x00],
    [0x18, 0x18, 0x18, 0x00, 0x18, 0x18, 0x18, 0x00],
    [0x70, 0x18, 0x18, 0x0e, 0x18, 0x18, 0x70, 0x00],
    [0x76, 0xdc, 0x00, 0x00, 0x00, 0x00, 0x00, 0x00],
];

/// The font.
pub struct VGA8X8;

impl VGA8X8 {
    /// The glyph of the character `ch`; `None` for characters that the
    /// font does not hold.
    pub fn get_glyph(ch: u8) -> (glyph: Option<[u8; 8]>)
        ensures
            glyph == if FIRST_GLYPH <= ch < FIRST_GLYPH + GLYPH_COUNT {
                Some(FONT8X8[ch - FIRST_GLYPH])
            } else {
                None
            },
    {
        if ch < FIRST_GLYPH || ch - FIRST_GLYPH >= GLYPH_COUNT {
            return None;
        }
        Some(FONT8X8[(ch - FIRST_GLYPH) as usize])
    }
}

/// The pixel value of a colour of the text screen: opaque, with the
/// colour's red, green and blue.
pub open spec fn pixel_of(c: Color) -> u32 {
    match c {
        Color::Black => 0xFF000000,
        Color::Blue => 0xFF0000AA,
        Color::Green => 0xFF00AA00,
        Color::Cyan => 0xFF00AAAA,
        Color::Red => 0xFFAA0000,
        Color::Magenta => 0xFFAA00AA,
        Color::Brown => 0xFFAA5500,
        Color::LightGray => 0xFFAAAAAA,
        Color::DarkGray => 0xFF555555,
        Color::LightBlue => 0xFF5555FF,
        Color::LightGreen => 0xFF55FF55,
        Color::LightCyan => 0xFF55FFFF,
        Color::LightRed => 0xFFFF5555,
        Color::Pink => 0xFFFF55FF,
        Color::Yellow => 0xFFFFFF55,
        Color::White => 0xFFFFFFFF,
    }
}

/// The pixel value of a colour of the text screen.
pub fn vbe_color_from_vga_color(c: Color) -> (pixel: u32)
    ensures
        pixel == pixel_of(c),
        pixel >= 0xFF000000,
{
    match c {
        Color::Black => 0xFF000000,
        Color::Blue => 0xFF0000AA,
        Color::Green => 0xFF00AA00,
        Color::Cyan => 0xFF00AAAA,
        Color::Red => 0xFFAA0000,
        Color::Magenta => 0xFFAA00AA,
        Color::Brown => 0xFFAA5500,
        Color::LightGray => 0xFFAAAAAA,
        Color::DarkGray => 0xFF555555,
        Color::LightBlue => 0xFF5555FF,
        Color::LightGreen => 0xFF55FF55,
        Color::LightCyan => 0xFF55FFFF,
        Color::LightRed => 0xFFFF5555,
        Color::Pink => 0xFFFF55FF,
        Color::Yellow => 0xFFFFFF55,
        Color::White => 0xFFFFFFFF,
    }
}

/// Where physical memory is mapped, as the boot code found it.
#[derive(Debug, Clone, Copy, PartialEq, Eq, Structural)]
pub struct BootPhysOffset {
    pub value: u64,
}

/// Records where physical memory is mapped.
pub fn set_boot_phys_offset(cell: &mut BootPhysOffset, val: u64)
    ensures
        final(cell).value == val,
{
    cell.value = val;
}

/// Where physical memory is mapped, as recorded; zero before anything was
/// recorded.
pub fn get_boot_phys_offset(cell: &BootPhysOffset) -> (val: u64)
    ensures
        val == cell.value,
{
    cell.value
}

/// The pitch that is assumed of a framebuffer whose geometry is not known:
/// 1024 pixels of four bytes.
pub const DEFAULT_PITCH: usize = 4096;

/// How far one character lies from the next in text drawn at a fixed
/// place: eight pixels of glyph and one of spacing.
pub const TEXT_ADVANCE: usize = 9;

/// The pitch of a framebuffer with the geometry `info`, or
/// [`DEFAULT_PITCH`] where the geometry is not known.
pub fn pitch_of(info: &Option<FramebufferInfo>) -> (pitch: usize)
    ensures
        pitch == match *info {
            Some(i) => i.pitch,
            None => DEFAULT_PITCH,
        },
{
    match info {
        Some(i) => i.pitch,
        None => DEFAULT_PITCH,
    }
}

/// Where the pixel in column `x` of row `y` starts in a framebuffer whose
/// rows lie `pitch` bytes apart: a pixel takes four bytes.
pub open spec fn pixel_start(pitch: int, x: int, y: int) -> int {
    y * pitch + x * 4
}

/// The framebuffer `fb` with the pixel in column `x` of row `y` set to
/// `color`, lowest byte first. A pixel that does not lie whole within the
/// framebuffer is not drawn.
pub open spec fn with_pixel(fb: Seq<u8>, pitch: int, x: int, y: int, color: u32) -> Seq<u8> {
    let at = pixel_start(pitch, x, y);
    if 0 <= at && at + 4 <= fb.len() {
        fb.update(at, le_bytes32(color)[0]).update(at + 1, le_bytes32(color)[1]).update(
            at + 2,
            le_bytes32(color)[2],
        ).update(at + 3, le_bytes32(color)[3])
    } else {
        fb
    }
}

/// The framebuffer `fb` with the first `n` pixels from column `x` on of
/// row `y` set to `color`, one behind the other.
pub open spec fn with_row(fb: Seq<u8>, pitch: int, x: int, y: int, n: int, color: u32) -> Seq<u8>
    decreases n,
{
    if n <= 0 {
        fb
    } else {
        with_pixel(with_row(fb, pitch, x, y, n - 1, color), pitch, x + n - 1, y, color)
    }
}

/// The framebuffer `fb` with the first `rows` rows of a rectangle set to
/// `color`, row by row: the rectangle is `w` pixels wide and has its
/// upper left corner in column `x` of row `y`.
pub open spec fn with_rect(
    fb: Seq<u8>,
    pitch: int,
    x: int,
    y: int,
    w: int,
    rows: int,
    color: u32,
) -> Seq<u8>
    decreases rows,
{
    if rows <= 0 {
        fb
    } else {
        with_row(with_rect(fb, pitch, x, y, w, rows - 1, color), pitch, x, y + rows - 1, w, color)
    }
}

/// Where the pixel in column `x` of row `y` starts, if it lies whole
/// within a framebuffer of `len` bytes.
pub fn pixel_offset(len: usize, pitch: usize, x: usize, y: usize) -> (at: Option<usize>)
    ensures
        at == if pixel_start(pitch as int, x as int, y as int) + 4 <= len {
            Some(pixel_start(pitch as int, x as int, y as int) as usize)
        } else {
            None
        },
{
    let row = match y.checked_mul(pitch) {
        Some(row) => row,
        None => {
            return None;
        },
    };
    let column = match x.checked_mul(4) {
        Some(column) => column,
        None => {
            return None;
        },
    };
    let at = match row.checked_add(column) {
        Some(at) => at,
        None => {
            return None;
        },
    };
    match at.checked_add(4) {
        Some(end) => if end <= len {
            Some(at)
        } else {
            None
        },
        None => None,
    }
}

/// Sets the pixel in column `x` of row `y` to `color`.
pub fn draw_pixel_at(fb: &mut [u8], pitch: usize, x: usize, y: usize, color: u32)
    ensures
        final(fb)@ == with_pixel(old(fb)@, pitch as int, x as int, y as int, color),
{
    match pixel_offset(fb.len(), pitch, x, y) {
        Some(at) => {
            fb[at] = (color % 0x100) as u8;
            fb[at + 1] = (color / 0x100 % 0x100) as u8;
            fb[at + 2] = (color / 0x1_0000 % 0x100) as u8;
            fb[at + 3] = (color / 0x100_0000) as u8;
        },
        None => {},
    }
}

/// A pixel in a column or row beyond the range of `usize` lies outside
/// every framebuffer.
pub proof fn lemma_far_pixel(fb: Seq<u8>, pitch: int, x: int, y: int, color: u32)
    requires
        fb.len() <= usize::MAX,
        pitch >= 0,
        x >= 0,
        y >= 0,
        x > usize::MAX || (y > usize::MAX && pitch > 0),
    ensures
        with_pixel(fb, pitch, x, y, color) == fb,
{
    assert(y * pitch >= 0) by (nonlinear_arith)
        requires
            y >= 0,
            pitch >= 0,
    ;
    if x <= usize::MAX {
        assert(y * pitch >= y) by (nonlinear_arith)
            requires
                y >= 0,
                pitch > 0,
        ;
    }
}

/// Sets the `n` pixels from column `x` on of row `y` to `color`.
pub fn draw_row_at(fb: &mut [u8], pitch: usize, x: usize, y: usize, n: usize, color: u32)
    ensures
        final(fb)@ == with_row(old(fb)@, pitch as int, x as int, y as int, n as int, color),
{
    let mut i: usize = 0;
    while i < n
        invariant
            i <= n,
            fb@ == with_row(old(fb)@, pitch as int, x as int, y as int, i as int, color),
        decreases n - i,
    {
        match x.checked_add(i) {
            Some(column) => {
                draw_pixel_at(fb, pitch, column, y, color);
            },
            None => {
                proof {
                    vstd::slice::axiom_spec_len(fb);
                    lemma_far_pixel(fb@, pitch as int, x + i, y as int, color);
                }
            },
        }
        i += 1;
    }
}

/// Fills the rectangle of `w` by `h` pixels whose upper left corner lies
/// in column `x` of row `y` with `color`, row by row.
pub fn draw_rect_at(fb: &mut [u8], pitch: usize, x: usize, y: usize, w: usize, h: usize, color: u32)
    ensures
        final(fb)@ == with_rect(
            old(fb)@,
            pitch as int,
            x as int,
            y as int,
            w as int,
            h as int,
            color,
        ),
{
    let mut r: usize = 0;
    while r < h
        invariant
            r <= h,
            fb@ == with_rect(old(fb)@, pitch as int, x as int, y as int, w as int, r as int, color),
        decreases h - r,
    {
        match y.checked_add(r) {
            Some(row) => {
                draw_row_at(fb, pitch, x, row, w, color);
            },
            None => {
                if pitch == 0 {
                    proof {
                        lemma_row_zero_pitch(fb@, x as int, y + r, 0, w as int, color);
                    }
                    draw_row_at(fb, pitch, x, 0, w, color);
                } else {
                    proof {
                        vstd::slice::axiom_spec_len(fb);
                        lemma_far_row(fb@, pitch as int, x as int, y + r, w as int, color);
                    }
                }
            },
        }
        r += 1;
    }
}

/// A row beyond the range of `usize` lies outside every framebuffer.
pub proof fn lemma_far_row(fb: Seq<u8>, pitch: int, x: int, y: int, n: int, color: u32)
    requires
        fb.len() <= usize::MAX,
        pitch > 0,
        x >= 0,
        y > usize::MAX,
    ensures
        with_row(fb, pitch, x, y, n, color) == fb,
    decreases n,
{
    if n > 0 {
        lemma_far_row(fb, pitch, x, y, n - 1, color);
        lemma_far_pixel(fb, pitch, x + n - 1, y, color);
    }
}

/// With a pitch of zero all rows lie on top of each other.
pub proof fn lemma_row_zero_pitch(fb: Seq<u8>, x: int, y: int, other: int, n: int, color: u32)
    ensures
        with_row(fb, 0, x, y, n, color) == with_row(fb, 0, x, other, n, color),
    decreases n,
{
    if n > 0 {
        lemma_row_zero_pitch(fb, x, y, other, n - 1, color);
    }
}

/// Whether the font holds a glyph for `ch`.
pub open spec fn has_glyph(ch: u8) -> bool {
    FIRST_GLYPH <= ch < FIRST_GLYPH + GLYPH_COUNT
}

/// `v` rotated left by `k` bits, for `k` below 8.
pub open spec fn rotated_left(v: u8, k: u8) -> u8 {
    if k == 0 {
        v
    } else {
        (v << k) | (v >> ((8 - k) as u8))
    }
}

/// Row `r` of the pattern that stands in for the glyph of a character that
/// the font does not hold: the character plus the row number, combined by
/// exclusive or with the character shifted right by the row number, and
/// rotated left by the row number.
pub open spec fn pattern_row(ch: u8, r: u8) -> u8 {
    rotated_left((((ch + r) % 0x100) as u8) ^ (ch >> r), r)
}

/// Row `r` of what is drawn for the character `ch`: of its glyph where the
/// font holds one, of its pattern otherwise.
pub open spec fn char_row(ch: u8, r: u8) -> u8 {
    if has_glyph(ch) {
        FONT8X8[ch - FIRST_GLYPH][r as int]
    } else {
        pattern_row(ch, r)
    }
}

/// Whether column `c` of a row `bits` of the character `ch` is drawn: a
/// glyph has its leftmost pixel in the top bit, a pattern in the lowest.
pub open spec fn char_pixel(ch: u8, bits: u8, c: u8) -> bool {
    if has_glyph(ch) {
        bits & (1u8 << ((7 - c) as u8)) != 0
    } else {
        bits & (1u8 << c) != 0
    }
}

/// The framebuffer `fb` with the first `n` columns of row `r` of the
/// character `ch` drawn in `color`; the character has its upper left
/// corner in column `x` of row `y`.
pub open spec fn with_char_row(
    fb: Seq<u8>,
    pitch: int,
    x: int,
    y: int,
    ch: u8,
    r: u8,
    n: int,
    color: u32,
) -> Seq<u8>
    decreases n,
{
    if n <= 0 {
        fb
    } else {
        let before = with_char_row(fb, pitch, x, y, ch, r, n - 1, color);
        if char_pixel(ch, char_row(ch, r), (n - 1) as u8) {
            with_pixel(before, pitch, x + n - 1, y + r, color)
        } else {
            before
        }
    }
}

/// The framebuffer `fb` with the first `rows` rows of the character `ch`
/// drawn in `color`.
pub open spec fn with_char(
    fb: Seq<u8>,
    pitch: int,
    x: int,
    y: int,
    ch: u8,
    rows: int,
    color: u32,
) -> Seq<u8>
    decreases rows,
{
    if rows <= 0 {
        fb
    } else {
        with_char_row(
            with_char(fb, pitch, x, y, ch, rows - 1, color),
            pitch,
            x,
            y,
            ch,
            (rows - 1) as u8,
            8,
            color,
        )
    }
}

/// Row `r` of what is drawn for the character `ch`.
pub fn row_of_char(ch: u8, r: u8) -> (bits: u8)
    requires
        r < 8,
    ensures
        bits == char_row(ch, r),
{
    match VGA8X8::get_glyph(ch) {
        Some(glyph) => glyph[r as usize],
        None => {
            let mixed = (((ch as u16 + r as u16) % 0x100) as u8) ^ (ch >> r);
            if r == 0 {
                mixed
            } else {
                (mixed << r) | (mixed >> (8 - r))
            }
        },
    }
}

/// Draws the character `ch` in `color` with its upper left corner in
/// column `x` of row `y`: eight rows of eight pixels, of which those of
/// the glyph are set and the others left as they are.
pub fn draw_char_at(fb: &mut [u8], pitch: usize, x: usize, y: usize, ch: u8, color: u32)
    requires
        x + 8 <= usize::MAX,
        y + 8 <= usize::MAX,
    ensures
        final(fb)@ == with_char(old(fb)@, pitch as int, x as int, y as int, ch, 8, color),
{
    let font = ch >= FIRST_GLYPH && ch - FIRST_GLYPH < GLYPH_COUNT;
    let mut r: u8 = 0;
    while r < 8
        invariant
            r <= 8,
            x + 8 <= usize::MAX,
            y + 8 <= usize::MAX,
            font == has_glyph(ch),
            fb@ == with_char(old(fb)@, pitch as int, x as int, y as int, ch, r as int, color),
        decreases 8 - r,
    {
        let bits = row_of_char(ch, r);
        let ghost before = fb@;
        let mut c: u8 = 0;
        while c < 8
            invariant
                c <= 8,
                r < 8,
                x + 8 <= usize::MAX,
                y + 8 <= usize::MAX,
                font == has_glyph(ch),
                bits == char_row(ch, r),
                fb@ == with_char_row(
                    before,
                    pitch as int,
                    x as int,
                    y as int,
                    ch,
                    r,
                    c as int,
                    color,
                ),
            decreases 8 - c,
        {
            let on = if font {
                bits & (1u8 << (7 - c)) != 0
            } else {
                bits & (1u8 << c) != 0
            };
            if on {
                draw_pixel_at(fb, pitch, x + c as usize, y + r as usize, color);
            }
            c += 1;
        }
        r += 1;
    }
}

/// How many of the first `n` bytes of `text` are drawn: all but line
/// feeds.
pub open spec fn drawn_before(text: Seq<u8>, n: int) -> int
    decreases n,
{
    if n <= 0 {
        0
    } else if text[n - 1] == 0x0A {
        drawn_before(text, n - 1)
    } else {
        drawn_before(text, n - 1) + 1
    }
}

/// The framebuffer `fb` with the first `n` bytes of `text` drawn in
/// `color` from column `x` of row `y` on: each character lies
/// [`TEXT_ADVANCE`] pixels right of the one before, and line feeds are
/// left out.
pub open spec fn with_text(
    fb: Seq<u8>,
    pitch: int,
    x: int,
    y: int,
    text: Seq<u8>,
    n: int,
    color: u32,
) -> Seq<u8>
    decreases n,
{
    if n <= 0 {
        fb
    } else {
        let before = with_text(fb, pitch, x, y, text, n - 1, color);
        if text[n - 1] == 0x0A {
            before
        } else {
            with_char(
                before,
                pitch,
                x + TEXT_ADVANCE * drawn_before(text, n - 1),
                y,
                text[n - 1],
                8,
                color,
            )
        }
    }
}

/// Draws the bytes of `text` as characters in `color`, one behind the
/// other from column `x` of row `y` on.
pub fn draw_text_absolute(fb: &mut [u8], pitch: usize, x: usize, y: usize, text: &[u8], color: u32)
    requires
        x + TEXT_ADVANCE * text@.len() + 8 <= usize::MAX,
        y + 8 <= usize::MAX,
    ensures
        final(fb)@ == with_text(
            old(fb)@,
            pitch as int,
            x as int,
            y as int,
            text@,
            text@.len() as int,
            color,
        ),
{
    let mut cx = x;
    let mut i: usize = 0;
    while i < text.len()
        invariant
            i <= text@.len(),
            x + TEXT_ADVANCE * text@.len() + 8 <= usize::MAX,
            y + 8 <= usize::MAX,
            0 <= drawn_before(text@, i as int) <= i,
            cx == x + TEXT_ADVANCE * drawn_before(text@, i as int),
            fb@ == with_text(old(fb)@, pitch as int, x as int, y as int, text@, i as int, color),
        decreases text@.len() - i,
    {
        let b = text[i];
        if b != 0x0A {
            draw_char_at(fb, pitch, cx, y, b, color);
            cx += TEXT_ADVANCE;
        }
        i += 1;
    }
}

/// A window of physical memory mapped for the driver: the pages from
/// `phys_map_start` on are seen from `virt_base` on, and the window itself
/// starts at `bar_phys`.
#[derive(Debug, Clone, Copy, PartialEq, Eq, Structural)]
pub struct FbMapping {
    pub virt_base: u64,
    pub phys_map_start: u64,
    pub bar_phys: u64,
    pub pages: u64,
}

/// A word to be written to a port.
#[derive(Debug, Clone, Copy, PartialEq, Eq, Structural)]
pub struct PortWriteWord {
    pub port: u16,
    pub value: u16,
}

/// The index port of the display interface.
pub const DISPI_INDEX_PORT: u16 = 0x01CE;

/// The data port of the display interface.
pub const DISPI_DATA_PORT: u16 = 0x01CF;

/// The driver of the linear framebuffer.
pub struct VbeVgaDriver {
    pub started: bool,
    /// The windows mapped while the driver runs.
    pub mappings: Vec<FbMapping>,
    /// The geometry that the display reported when the driver started.
    pub fb_info: Option<FramebufferInfo>,
}

/// The mapping for the memory window `r`, where physical memory is mapped
/// at `phys_offset`: whole pages from the one that holds the start of the
/// window to the one that holds its end. A window of length zero counts
/// as one page long.
pub open spec fn mapping_of(r: Resource, phys_offset: u64) -> FbMapping {
    let len = if r.len == 0 {
        0x1000
    } else {
        r.len as int
    };
    let first = r.addr - r.addr % 0x1000;
    let end = (r.addr + len + 0xFFF) / 0x1000 * 0x1000;
    FbMapping {
        virt_base: ((phys_offset + first) % 0x1_0000_0000_0000_0000) as u64,
        phys_map_start: first as u64,
        bar_phys: r.addr,
        pages: ((end - first) / 0x1000) as u64,
    }
}

/// Whether the memory window `r` is mapped: it must be a window of memory
/// that ends within 64 bits.
pub open spec fn is_mapped(r: Resource) -> bool {
    let len = if r.len == 0 {
        0x1000
    } else {
        r.len as int
    };
    r.kind is MemoryMapped && r.addr + len + 0xFFF <= u64::MAX
}

/// The mappings for the memory windows among `resources`, in order.
pub open spec fn mappings_of(resources: Seq<Resource>, phys_offset: u64) -> Seq<FbMapping>
    decreases resources.len(),
{
    if resources.len() == 0 {
        Seq::empty()
    } else if is_mapped(resources.last()) {
        mappings_of(resources.drop_last(), phys_offset).push(
            mapping_of(resources.last(), phys_offset),
        )
    } else {
        mappings_of(resources.drop_last(), phys_offset)
    }
}

/// The mappings that the driver needs for a device with the resources
/// `resources`, in the order of the resources.
pub fn plan_mappings(resources: &Vec<Resource>, phys_offset: u64) -> (plan: Vec<FbMapping>)
    ensures
        plan@ == mappings_of(resources@, phys_offset),
{
    let mut plan: Vec<FbMapping> = Vec::new();
    let mut i: usize = 0;
    while i < resources.len()
        invariant
            i <= resources.len(),
            plan@ == mappings_of(resources@.take(i as int), phys_offset),
        decreases resources.len() - i,
    {
        proof {
            assert(resources@.take(i as int + 1).drop_last() =~= resources@.take(i as int));
        }
        let r = resources[i];
        match r.kind {
            ResourceKind::MemoryMapped => {
                let len: u64 = if r.len == 0 {
                    0x1000
                } else {
                    r.len
                };
                if r.addr <= u64::MAX - len && r.addr + len <= u64::MAX - 0xFFF {
                    let first = r.addr - r.addr % 0x1000;
                    let end = (r.addr + len + 0xFFF) / 0x1000 * 0x1000;
                    plan.push(
                        FbMapping {
                            virt_base: phys_offset.wrapping_add(first),
                            phys_map_start: first,
                            bar_phys: r.addr,
                            pages: (end - first) / 0x1000,
                        },
                    );
                }
            },
            _ => {},
        }
        i += 1;
    }
    assert(resources@.take(i as int) =~= resources@);
    plan
}

/// The geometry that the display reports with the horizontal resolution
/// `xres`, the vertical resolution `yres` and `bpp` bits per pixel; none
/// where a resolution is zero. A row takes as many bytes as its pixels
/// take whole.
pub fn framebuffer_info(xres: u16, yres: u16, bpp: u16) -> (info: Option<FramebufferInfo>)
    ensures
        info == if xres != 0 && yres != 0 {
            Some(
                FramebufferInfo {
                    width: xres as u32,
                    height: yres as u32,
                    bpp: bpp as u32,
                    pitch: (xres * ((bpp + 7) / 8)) as usize,
                },
            )
        } else {
            None
        },
{
    if xres != 0 && yres != 0 {
        let bytes_per_pixel = (bpp as usize + 7) / 8;
        assert(xres * bytes_per_pixel <= 0xFFFF * 0x2000) by (nonlinear_arith)
            requires
                xres <= 0xFFFF,
                bytes_per_pixel <= 0x2000,
        ;
        Some(
            FramebufferInfo {
                width: xres as u32,
                height: yres as u32,
                bpp: bpp as u32,
                pitch: xres as usize * bytes_per_pixel,
            },
        )
    } else {
        None
    }
}

/// Where the framebuffer of the mapping `m` is seen.
pub open spec fn framebuffer_address(m: FbMapping) -> u64 {
    ((m.virt_base + m.bar_phys - m.phys_map_start) % 0x1_0000_0000_0000_0000) as u64
}

impl VbeVgaDriver {
    /// A driver that has not started.
    pub fn new() -> (d: VbeVgaDriver)
        ensures
            !d.started,
            d.mappings@.len() == 0,
            d.fb_info is None,
    {
        VbeVgaDriver { started: false, mappings: Vec::new(), fb_info: None }
    }

    /// Whether the driver serves the device: it serves display
    /// controllers.
    pub fn probe(&self, info: &DeviceInfo) -> (r: Result<(), &'static str>)
        ensures
            r == if info.class == 0x03 {
                Ok::<(), &'static str>(())
            } else {
                Err::<(), &'static str>("not a display controller")
            },
    {
        if info.class == 0x03 {
            Ok(())
        } else {
            Err("not a display controller")
        }
    }

    /// The writes that set the display to `xres` by `yres` pixels of `bpp`
    /// bits through the display interface: the interface is switched off,
    /// given the three values, and switched on with the linear
    /// framebuffer. `id` is what the identifier register of the interface
    /// holds; an identifier of 0 or 0xFFFF means that there is no
    /// interface, and nothing is written.
    pub fn set_vbe_mode_dispi(id: u16, xres: u16, yres: u16, bpp: u16) -> (writes: Vec<
        PortWriteWord,
    >)
        ensures
            writes@ == if id == 0 || id == 0xFFFF {
                Seq::<PortWriteWord>::empty()
            } else {
                seq![
                    PortWriteWord { port: DISPI_INDEX_PORT, value: 4 },
                    PortWriteWord { port: DISPI_DATA_PORT, value: 0 },
                    PortWriteWord { port: DISPI_INDEX_PORT, value: 1 },
                    PortWriteWord { port: DISPI_DATA_PORT, value: xres },
                    PortWriteWord { port: DISPI_INDEX_PORT, value: 2 },
                    PortWriteWord { port: DISPI_DATA_PORT, value: yres },
                    PortWriteWord { port: DISPI_INDEX_PORT, value: 3 },
                    PortWriteWord { port: DISPI_DATA_PORT, value: bpp },
                    PortWriteWord { port: DISPI_INDEX_PORT, value: 4 },
                    PortWriteWord { port: DISPI_DATA_PORT, value: 0x41 },
                ]
            },
    {
        let mut writes: Vec<PortWriteWord> = Vec::new();
        if id == 0 || id == 0xFFFF {
            return writes;
        }
        writes.push(PortWriteWord { port: DISPI_INDEX_PORT, value: 4 });
        writes.push(PortWriteWord { port: DISPI_DATA_PORT, value: 0 });
        writes.push(PortWriteWord { port: DISPI_INDEX_PORT, value: 1 });
        writes.push(PortWriteWord { port: DISPI_DATA_PORT, value: xres });
        writes.push(PortWriteWord { port: DISPI_INDEX_PORT, value: 2 });
        writes.push(PortWriteWord { port: DISPI_DATA_PORT, value: yres });
        writes.push(PortWriteWord { port: DISPI_INDEX_PORT, value: 3 });
        writes.push(PortWriteWord { port: DISPI_DATA_PORT, value: bpp });
        writes.push(PortWriteWord { port: DISPI_INDEX_PORT, value: 4 });
        writes.push(PortWriteWord { port: DISPI_DATA_PORT, value: 0x41 });
        assert(writes@ =~= seq![
            PortWriteWord { port: DISPI_INDEX_PORT, value: 4 },
            PortWriteWord { port: DISPI_DATA_PORT, value: 0 },
            PortWriteWord { port: DISPI_INDEX_PORT, value: 1 },
            PortWriteWord { port: DISPI_DATA_PORT, value: xres },
            PortWriteWord { port: DISPI_INDEX_PORT, value: 2 },
            PortWriteWord { port: DISPI_DATA_PORT, value: yres },
            PortWriteWord { port: DISPI_INDEX_PORT, value: 3 },
            PortWriteWord { port: DISPI_DATA_PORT, value: bpp },
            PortWriteWord { port: DISPI_INDEX_PORT, value: 4 },
            PortWriteWord { port: DISPI_DATA_PORT, value: 0x41 },
        ]);
        writes
    }

    /// Whether the driver may start: it may not while it runs.
    pub fn check_start(&self) -> (r: Result<(), &'static str>)
        ensures
            r == if self.started {
                Err::<(), &'static str>("already started")
            } else {
                Ok::<(), &'static str>(())
            },
    {
        if self.started {
            Err("already started")
        } else {
            Ok(())
        }
    }

    /// Completes the start of the driver once the windows `created` are
    /// mapped and the display reported its geometry as `xres`, `yres` and
    /// `bpp`. Without a window the start fails and nothing changes.
    pub fn start(&mut self, created: Vec<FbMapping>, xres: u16, yres: u16, bpp: u16) -> (r: Result<
        (),
        &'static str,
    >)
        ensures
            old(self).started ==> r == Err::<(), &'static str>("already started") && *final(self)
                == *old(self),
            !old(self).started && created@.len() == 0 ==> r == Err::<(), &'static str>(
                "no MMIO BARs mapped",
            ) && *final(self) == *old(self),
            !old(self).started && created@.len() > 0 ==> {
                &&& r is Ok
                &&& final(self).started
                &&& final(self).mappings == created
                &&& final(self).fb_info == if xres != 0 && yres != 0 {
                    Some(
                        FramebufferInfo {
                            width: xres as u32,
                            height: yres as u32,
                            bpp: bpp as u32,
                            pitch: (xres * ((bpp + 7) / 8)) as usize,
                        },
                    )
                } else {
                    old(self).fb_info
                }
            },
    {
        if self.started {
            return Err("already started");
        }
        if created.len() == 0 {
            return Err("no MMIO BARs mapped");
        }
        match framebuffer_info(xres, yres, bpp) {
            Some(info) => {
                self.fb_info = Some(info);
            },
            None => {},
        }
        self.mappings = created;
        self.started = true;
        Ok(())
    }

    /// Stops the driver. What comes back are the windows that were
    /// mapped, for the caller to clear and to unmap; none where the driver
    /// did not run.
    pub fn stop(&mut self) -> (mapped: Vec<FbMapping>)
        ensures
            !final(self).started,
            final(self).fb_info == old(self).fb_info,
            old(self).started ==> mapped == old(self).mappings && final(self).mappings@.len() == 0,
            !old(self).started ==> mapped@.len() == 0 && final(self).mappings == old(self).mappings,
    {
        if !self.started {
            return Vec::new();
        }
        self.started = false;
        let mut mapped: Vec<FbMapping> = Vec::new();
        core::mem::swap(&mut mapped, &mut self.mappings);
        mapped
    }

    /// Where the framebuffers of the mapped windows are seen, in the order
    /// of the windows.
    pub fn get_framebuffer_addrs(&self) -> (addrs: Vec<u64>)
        ensures
            addrs@.len() == self.mappings@.len(),
            forall|i: int|
                0 <= i < addrs@.len() ==> #[trigger] addrs@[i] == framebuffer_address(
                    self.mappings@[i],
                ),
    {
        let mut addrs: Vec<u64> = Vec::new();
        let mut i: usize = 0;
        while i < self.mappings.len()
            invariant
                i <= self.mappings@.len(),
                addrs@.len() == i,
                forall|k: int|
                    0 <= k < i ==> #[trigger] addrs@[k] == framebuffer_address(self.mappings@[k]),
            decreases self.mappings@.len() - i,
        {
            let m = self.mappings[i];
            addrs.push(m.virt_base.wrapping_add(m.bar_phys).wrapping_sub(m.phys_map_start));
            i += 1;
        }
        addrs
    }
}

/// Blanks the square that the driver drew as a sign of life: the pixels of
/// the rows and columns from 100 up to 300 of a framebuffer with the
/// default pitch.
pub fn clear_test_box(fb: &mut [u8])
    ensures
        final(fb)@ == with_rect(old(fb)@, DEFAULT_PITCH as int, 100, 100, 200, 200, 0),
{
    draw_rect_at(fb, DEFAULT_PITCH, 100, 100, 200, 200, 0);
}

/// Prints the text `s` to the console of the first framebuffer and says
/// whether there was one to print to.
pub fn vbe_try_print(
    set: &mut ConsoleSet,
    first_fb: Option<u64>,
    info: &Option<FramebufferInfo>,
    fb: &mut [u8],
    s: &str,
) -> (shown: bool)
    requires
        all_wf(old(set).consoles@),
    ensures
        all_wf(final(set).consoles@),
        shown == (first_fb is Some),
        printed_first(
            old(set).consoles@,
            old(fb)@,
            first_fb,
            *info,
            s.spec_bytes(),
            final(set).consoles@,
            final(fb)@,
        ),
{
    console_print_first(set, first_fb, info, fb, s)
}

/// Blanks the console of the first framebuffer, if there is one.
pub fn vbe_clear_first(
    set: &mut ConsoleSet,
    first_fb: Option<u64>,
    info: &Option<FramebufferInfo>,
    fb: &mut [u8],
)
    requires
        all_wf(old(set).consoles@),
    ensures
        all_wf(final(set).consoles@),
        cleared_first(
            old(set).consoles@,
            old(fb)@,
            first_fb,
            *info,
            final(set).consoles@,
            final(fb)@,
        ),
{
    let _ = console_clear_first(set, first_fb, info, fb);
}

/// Prints the text `s` to the console of the first framebuffer, if there
/// is one.
pub fn vbe_print_first(
    set: &mut ConsoleSet,
    first_fb: Option<u64>,
    info: &Option<FramebufferInfo>,
    fb: &mut [u8],
    s: &str,
)
    requires
        all_wf(old(set).consoles@),
    ensures
        all_wf(final(set).consoles@),
        printed_first(
            old(set).consoles@,
            old(fb)@,
            first_fb,
            *info,
            s.spec_bytes(),
            final(set).consoles@,
            final(fb)@,
        ),
{
    let _ = console_print_first(set, first_fb, info, fb, s);
}

/// Prints the text `s` to the console of the first framebuffer and to
/// nothing else: without a framebuffer the text is dropped rather than
/// left to the boot screen.
pub fn vbe_print_only(
    set: &mut ConsoleSet,
    first_fb: Option<u64>,
    info: &Option<FramebufferInfo>,
    fb: &mut [u8],
    s: &str,
)
    requires
        all_wf(old(set).consoles@),
    ensures
        all_wf(final(set).consoles@),
        printed_first(
            old(set).consoles@,
            old(fb)@,
            first_fb,
            *info,
            s.spec_bytes(),
            final(set).consoles@,
            final(fb)@,
        ),
{
    if first_fb.is_none() {
        return ;
    }
    let _ = console_print_first(set, first_fb, info, fb, s);
}

/// Sets the colours of the console of the first framebuffer, if there is
/// one.
pub fn vbe_set_colors_first(
    set: &mut ConsoleSet,
    first_fb: Option<u64>,
    info: &Option<FramebufferInfo>,
    fg: u32,
    bg: u32,
)
    requires
        all_wf(old(set).consoles@),
    ensures
        all_wf(final(set).consoles@),
        recoloured_first(old(set).consoles@, first_fb, *info, fg, bg, final(set).consoles@),
{
    console_set_colors_first(set, first_fb, info, fg, bg);
}

/// Moves the cursor of the console of the first framebuffer, if there is
/// one.
pub fn vbe_set_cursor_first(
    set: &mut ConsoleSet,
    first_fb: Option<u64>,
    info: &Option<FramebufferInfo>,
    col: usize,
    row: usize,
)
    requires
        all_wf(old(set).consoles@),
    ensures
        all_wf(final(set).consoles@),
        cursor_set_first(old(set).consoles@, first_fb, *info, col, row, final(set).consoles@),
{
    console_set_cursor_first(set, first_fb, info, col, row);
}

} // verus!
