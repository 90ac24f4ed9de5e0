//! The text console on the framebuffer: where the cursor stands, and what
//! printing does to the cursor and to the pixels.

use vstd::prelude::*;
use vstd::string::*;
use crate::bytes::le_bytes32;
use crate::driver_framework::device::DeviceHandle;
use crate::driver_framework::driver::{Driver, DriverBox};
use crate::driver_framework::drivers::vbe_vga::{
    draw_char_at, draw_rect_at, pitch_of, with_char, with_rect, FramebufferInfo,
};
use crate::rlib::mem::{memmove, moved};

verus! {

/// The width of a character cell in pixels: a glyph and one pixel of
/// spacing.
pub const CELL_WIDTH: usize = 9;

/// The height of a character cell in pixels.
pub const CELL_HEIGHT: usize = 8;

/// The number of columns of a console on a framebuffer whose geometry is
/// not known, or too narrow for one cell.
pub const DEFAULT_COLS: usize = 80;

/// The number of rows of a console on a framebuffer whose geometry is not
/// known, or too low for one cell.
pub const DEFAULT_ROWS: usize = 25;

/// How far apart tab stops lie, in columns.
pub const TAB_WIDTH: usize = 8;

/// A console on one framebuffer.
#[derive(Debug, Clone, Copy, PartialEq, Eq, Structural)]
pub struct Console {
    /// Where the framebuffer is seen.
    pub fb_virt: u64,
    pub cols: usize,
    pub rows: usize,
    /// The column of the cursor.
    pub cur_x: usize,
    /// The row of the cursor.
    pub cur_y: usize,
    /// The colour of the text.
    pub fg: u32,
    /// The colour of the background.
    pub bg: u32,
    /// The width of a character cell in pixels.
    pub char_w: usize,
    /// The height of a character cell in pixels.
    pub char_h: usize,
}

/// The consoles, one for each framebuffer that was printed to.
pub struct ConsoleSet {
    pub consoles: Vec<Console>,
}

/// A console and the framebuffer it draws into.
pub struct Screen {
    pub console: Console,
    pub fb: Seq<u8>,
}

/// The lesser of `v` and the greatest `usize`.
pub open spec fn capped(v: int) -> usize {
    if v > usize::MAX {
        usize::MAX
    } else {
        v as usize
    }
}

/// The product of `a` and `b`, or the greatest `usize` where the product
/// is greater.
pub fn scaled(a: usize, b: usize) -> (p: usize)
    ensures
        p == capped(a * b),
{
    match a.checked_mul(b) {
        Some(p) => p,
        None => usize::MAX,
    }
}

impl Console {
    /// The console has at least one row and one column.
    pub open spec fn wf(&self) -> bool {
        self.cols >= 1 && self.rows >= 1
    }

    /// The console with the cursor at the start of the next row.
    pub open spec fn on_next_row(self) -> Console {
        Console { cur_x: 0, cur_y: capped(self.cur_y + 1), ..self }
    }

    /// Moves the cursor to the start of the next row.
    pub fn newline(&mut self)
        ensures
            *final(self) == old(self).on_next_row(),
    {
        self.cur_x = 0;
        self.cur_y = match self.cur_y.checked_add(1) {
            Some(next) => next,
            None => usize::MAX,
        };
    }

    /// The column of pixels at which the cursor's cell starts.
    pub open spec fn pixel_x(self) -> usize {
        capped(self.cur_x * self.char_w)
    }

    /// The row of pixels at which the cursor's cell starts.
    pub open spec fn pixel_y(self) -> usize {
        capped(self.cur_y * self.char_h)
    }
}

/// The console for a framebuffer seen at `fb_virt` with the geometry
/// `info`: as many cells as fit into the framebuffer, or the default
/// number where the geometry is not known or no cell fits; white on
/// black, with the cursor in the upper left corner.
pub open spec fn fresh_console(fb_virt: u64, info: Option<FramebufferInfo>) -> Console {
    let cols = match info {
        Some(i) => if i.width as int / CELL_WIDTH as int == 0 {
            DEFAULT_COLS
        } else {
            (i.width as int / CELL_WIDTH as int) as usize
        },
        None => DEFAULT_COLS,
    };
    let rows = match info {
        Some(i) => if i.height as int / CELL_HEIGHT as int == 0 {
            DEFAULT_ROWS
        } else {
            (i.height as int / CELL_HEIGHT as int) as usize
        },
        None => DEFAULT_ROWS,
    };
    Console {
        fb_virt,
        cols,
        rows,
        cur_x: 0,
        cur_y: 0,
        fg: 0xFFFFFFFF,
        bg: 0x00000000,
        char_w: CELL_WIDTH,
        char_h: CELL_HEIGHT,
    }
}

/// Where the console for the framebuffer seen at `fb_virt` stands among
/// `consoles`: the position of the first console for it, if there is one.
pub open spec fn console_position(consoles: Seq<Console>, fb_virt: u64) -> Option<int>
    decreases consoles.len(),
{
    if consoles.len() == 0 {
        None
    } else {
        match console_position(consoles.drop_last(), fb_virt) {
            Some(i) => Some(i),
            None => if consoles.last().fb_virt == fb_virt {
                Some(consoles.len() - 1)
            } else {
                None
            },
        }
    }
}

/// A position found among the first consoles is the position among all.
pub proof fn lemma_console_position_prefix(consoles: Seq<Console>, n: int, fb_virt: u64)
    requires
        0 <= n <= consoles.len(),
        console_position(consoles.take(n), fb_virt) is Some,
    ensures
        console_position(consoles, fb_virt) == console_position(consoles.take(n), fb_virt),
    decreases consoles.len() - n,
{
    if n < consoles.len() {
        assert(consoles.take(n + 1).drop_last() =~= consoles.take(n));
        lemma_console_position_prefix(consoles, n + 1, fb_virt);
    } else {
        assert(consoles.take(n) =~= consoles);
    }
}

/// The position of the console for the framebuffer seen at `fb_virt`; a
/// console is made for it where there is none yet.
pub fn get_or_create_console(
    set: &mut ConsoleSet,
    fb_virt: u64,
    info: &Option<FramebufferInfo>,
) -> (at: usize)
    requires
        forall|i: int| 0 <= i < old(set).consoles@.len() ==> (#[trigger] old(set).consoles@[i]).wf(),
    ensures
        forall|i: int| 0 <= i < final(set).consoles@.len() ==> (#[trigger] final(set).consoles@[i]).wf(),
        at < final(set).consoles@.len(),
        final(set).consoles@[at as int].fb_virt == fb_virt,
        match console_position(old(set).consoles@, fb_virt) {
            Some(i) => at == i && final(set).consoles@ == old(set).consoles@,
            None => at == old(set).consoles@.len() && final(set).consoles@
                == old(set).consoles@.push(fresh_console(fb_virt, *info)),
        },
{
    let mut i: usize = 0;
    while i < set.consoles.len()
        invariant
            i <= set.consoles@.len(),
            set.consoles@ == old(set).consoles@,
            forall|k: int| 0 <= k < set.consoles@.len() ==> (#[trigger] set.consoles@[k]).wf(),
            console_position(set.consoles@.take(i as int), fb_virt) is None,
        decreases set.consoles@.len() - i,
    {
        proof {
            assert(set.consoles@.take(i as int + 1).drop_last() =~= set.consoles@.take(i as int));
        }
        if set.consoles[i].fb_virt == fb_virt {
            proof {
                lemma_console_position_prefix(set.consoles@, i as int + 1, fb_virt);
            }
            return i;
        }
        i += 1;
    }
    assert(set.consoles@.take(i as int) =~= set.consoles@);
    let mut cols = DEFAULT_COLS;
    let mut rows = DEFAULT_ROWS;
    match info {
        Some(geometry) => {
            cols = geometry.width as usize / CELL_WIDTH;
            rows = geometry.height as usize / CELL_HEIGHT;
            if cols == 0 {
                cols = DEFAULT_COLS;
            }
            if rows == 0 {
                rows = DEFAULT_ROWS;
            }
        },
        None => {},
    }
    set.consoles.push(
        Console {
            fb_virt,
            cols,
            rows,
            cur_x: 0,
            cur_y: 0,
            fg: 0xFFFFFFFF,
            bg: 0x00000000,
            char_w: CELL_WIDTH,
            char_h: CELL_HEIGHT,
        },
    );
    set.consoles.len() - 1
}

/// Whether the cell of eight by eight pixels whose upper left corner lies
/// in column `px` of row `py` can be addressed at all.
pub open spec fn cell_addressable(px: usize, py: usize) -> bool {
    px + 8 <= usize::MAX && py + 8 <= usize::MAX
}

/// The framebuffer `fb` with the character `ch` drawn into the cell at
/// column `px` of row `py`; a cell that cannot be addressed is not drawn.
pub open spec fn with_cell_char(fb: Seq<u8>, pitch: int, px: usize, py: usize, ch: u8, color: u32)
    -> Seq<u8> {
    if cell_addressable(px, py) {
        with_char(fb, pitch, px as int, py as int, ch, 8, color)
    } else {
        fb
    }
}

/// The byte number `j` of an area of `cleared` bytes that scrolling
/// cleared: the area is filled with the background colour four bytes at a
/// time, lowest byte first, and what is left at its end with zeros.
pub open spec fn scroll_fill(bg: u32, j: int, cleared: int) -> u8 {
    if j < cleared / 4 * 4 {
        le_bytes32(bg)[j % 4]
    } else {
        0
    }
}

/// The framebuffer `fb` with its first `total` bytes moved towards the
/// start by `shift` bytes, and the `shift` bytes that this frees filled
/// with the background colour.
pub open spec fn scrolled_up(fb: Seq<u8>, total: int, shift: int, bg: u32) -> Seq<u8> {
    Seq::new(
        fb.len(),
        |i: int|
            if i < total - shift {
                fb[i + shift]
            } else if i < total {
                scroll_fill(bg, i - (total - shift), shift)
            } else {
                fb[i]
            },
    )
}

/// The screen scrolled up by `lines` rows of text. Scrolling by all rows
/// or more clears the screen and puts the cursor into the upper left
/// corner. Scrolling by fewer moves the rows up and clears the rows at
/// the bottom; the cursor stays. A framebuffer too small for the rows of
/// the console is left as it is.
pub open spec fn scrolled(s: Screen, pitch: int, lines: int) -> Screen {
    let c = s.console;
    if lines <= 0 {
        s
    } else if lines >= c.rows {
        Screen {
            console: Console { cur_x: 0, cur_y: 0, ..c },
            fb: with_rect(
                s.fb,
                pitch,
                0,
                0,
                capped(c.cols * c.char_w) as int,
                capped(c.rows * c.char_h) as int,
                c.bg,
            ),
        }
    } else {
        let total = c.rows * c.char_h * pitch;
        let shift = lines * c.char_h * pitch;
        if total <= s.fb.len() {
            Screen { console: c, fb: scrolled_up(s.fb, total, shift, c.bg) }
        } else {
            s
        }
    }
}

/// The byte number `j` of an area of `cleared` bytes that scrolling
/// cleared.
pub fn fill_byte(bg: u32, j: usize, cleared: usize) -> (b: u8)
    ensures
        b == scroll_fill(bg, j as int, cleared as int),
{
    if j < cleared / 4 * 4 {
        let lane = j % 4;
        if lane == 0 {
            (bg % 0x100) as u8
        } else if lane == 1 {
            (bg / 0x100 % 0x100) as u8
        } else if lane == 2 {
            (bg / 0x1_0000 % 0x100) as u8
        } else {
            (bg / 0x100_0000) as u8
        }
    } else {
        0
    }
}

/// The three-fold product of `a`, `b` and `c`, if it fits.
pub fn product3(a: usize, b: usize, c: usize) -> (p: Option<usize>)
    requires
        c > 0,
    ensures
        match p {
            Some(v) => v == a * b * c,
            None => a * b * c > usize::MAX,
        },
{
    match a.checked_mul(b) {
        Some(ab) => {
            let r = ab.checked_mul(c);
            r
        },
        None => {
            assert(a * b * c >= a * b) by (nonlinear_arith)
                requires
                    c > 0,
                    a * b >= 0,
            ;
            None
        },
    }
}

/// Scrolls the console up by `lines` rows of text.
pub fn console_scroll_mut(console: &mut Console, fb: &mut [u8], pitch: usize, lines: usize)
    requires
        old(console).wf(),
    ensures
        final(console).wf(),
        (Screen { console: *final(console), fb: final(fb)@ }) == scrolled(
            Screen { console: *old(console), fb: old(fb)@ },
            pitch as int,
            lines as int,
        ),
{
    if lines == 0 {
        return ;
    }
    if lines >= console.rows {
        draw_rect_at(
            fb,
            pitch,
            0,
            0,
            scaled(console.cols, console.char_w),
            scaled(console.rows, console.char_h),
            console.bg,
        );
        console.cur_x = 0;
        console.cur_y = 0;
        return ;
    }
    let ghost rows = console.rows as int;
    let ghost char_h = console.char_h as int;
    if pitch == 0 {
        assert(rows * char_h * 0 == 0 && lines * char_h * 0 == 0) by (nonlinear_arith);
        assert(fb@ =~= scrolled_up(fb@, 0, 0, console.bg));
        return ;
    }
    let len = fb.len();
    let total = match product3(console.rows, console.char_h, pitch) {
        Some(total) => total,
        None => {
            return ;
        },
    };
    if total > len {
        return ;
    }
    proof {
        assert(lines * char_h * pitch <= rows * char_h * pitch) by (nonlinear_arith)
            requires
                0 < lines < rows,
                char_h >= 0,
                pitch >= 0,
        ;
        assert(lines * char_h * pitch >= 0) by (nonlinear_arith)
            requires
                lines >= 0,
                char_h >= 0,
                pitch >= 0,
        ;
        assert(lines * char_h <= lines * char_h * pitch) by (nonlinear_arith)
            requires
                lines * char_h >= 0,
                pitch > 0,
        ;
    }
    let shift = lines * console.char_h * pitch;
    let kept = total - shift;
    memmove(fb, 0, shift, kept);
    let ghost mid = fb@;
    let mut j: usize = 0;
    while j < shift
        invariant
            j <= shift,
            kept + shift == total,
            total <= fb@.len(),
            fb@.len() == mid.len(),
            forall|i: int|
                0 <= i < fb@.len() ==> #[trigger] fb@[i] == (if kept <= i < kept + j {
                    scroll_fill(console.bg, i - kept, shift as int)
                } else {
                    mid[i]
                }),
        decreases shift - j,
    {
        fb[kept + j] = fill_byte(console.bg, j, shift);
        j += 1;
    }
    assert(fb@ =~= scrolled_up(old(fb)@, total as int, shift as int, console.bg));
}

/// The screen after a line feed: the cursor goes to the start of the next
/// row, and where that lies below the last row, the screen scrolls up by
/// one row and the cursor goes to the last row.
pub open spec fn after_newline(s: Screen, pitch: int) -> Screen {
    let c = s.console.on_next_row();
    if c.cur_y >= c.rows {
        let t = scrolled(Screen { console: c, fb: s.fb }, pitch, 1);
        Screen { console: Console { cur_y: (t.console.rows - 1) as usize, ..t.console }, fb: t.fb }
    } else {
        Screen { console: c, fb: s.fb }
    }
}

/// The console with the cursor one cell back: one column to the left, or
/// from the first column to the last column of the row above; in the
/// upper left corner it stays.
pub open spec fn stepped_back(c: Console) -> Console {
    if c.cur_x > 0 {
        Console { cur_x: (c.cur_x - 1) as usize, ..c }
    } else if c.cur_y > 0 {
        Console { cur_y: (c.cur_y - 1) as usize, cur_x: (c.cols - 1) as usize, ..c }
    } else {
        c
    }
}

/// The column of the tab stop behind column `x`.
pub open spec fn next_tab_stop(x: usize) -> usize {
    capped((x / TAB_WIDTH + 1) * TAB_WIDTH)
}

/// The screen after the byte `b` was printed. A line feed starts a new
/// row, a carriage return goes back to the first column, a backspace goes
/// one cell back and blanks it, a tab goes to the next tab stop or, where
/// that lies beyond the last column, to the start of the next row. Any
/// other byte is drawn as a character at the cursor, and the cursor moves
/// on, to a new row behind the last column.
pub open spec fn printed_byte(s: Screen, pitch: int, b: u8) -> Screen {
    let c = s.console;
    if b == 0x0A {
        after_newline(s, pitch)
    } else if b == 0x0D {
        Screen { console: Console { cur_x: 0, ..c }, fb: s.fb }
    } else if b == 8 {
        let back = stepped_back(c);
        Screen {
            console: back,
            fb: with_rect(
                s.fb,
                pitch,
                back.pixel_x() as int,
                back.pixel_y() as int,
                c.char_w as int,
                c.char_h as int,
                c.bg,
            ),
        }
    } else if b == 9 {
        if next_tab_stop(c.cur_x) >= c.cols {
            Screen { console: c.on_next_row(), fb: s.fb }
        } else {
            Screen { console: Console { cur_x: next_tab_stop(c.cur_x), ..c }, fb: s.fb }
        }
    } else {
        let fb = with_cell_char(s.fb, pitch, c.pixel_x(), c.pixel_y(), b, c.fg);
        let moved = Console { cur_x: capped(c.cur_x + 1), ..c };
        if moved.cur_x >= moved.cols {
            after_newline(Screen { console: moved, fb }, pitch)
        } else {
            Screen { console: moved, fb }
        }
    }
}

/// The screen after the first `n` bytes of `text` were printed.
pub open spec fn printed(s: Screen, pitch: int, text: Seq<u8>, n: int) -> Screen
    decreases n,
{
    if n <= 0 {
        s
    } else {
        printed_byte(printed(s, pitch, text, n - 1), pitch, text[n - 1])
    }
}

fn line_feed(console: &mut Console, fb: &mut [u8], pitch: usize)
    requires
        old(console).wf(),
    ensures
        final(console).wf(),
        (Screen { console: *final(console), fb: final(fb)@ }) == after_newline(
            Screen { console: *old(console), fb: old(fb)@ },
            pitch as int,
        ),
{
    console.newline();
    if console.cur_y >= console.rows {
        console_scroll_mut(console, fb, pitch, 1);
        console.cur_y = console.rows - 1;
    }
}

/// Prints the byte `b` to the console.
pub fn print_byte(console: &mut Console, fb: &mut [u8], pitch: usize, b: u8)
    requires
        old(console).wf(),
    ensures
        final(console).wf(),
        (Screen { console: *final(console), fb: final(fb)@ }) == printed_byte(
            Screen { console: *old(console), fb: old(fb)@ },
            pitch as int,
            b,
        ),
{
    if b == 0x0A {
        line_feed(console, fb, pitch);
    } else if b == 0x0D {
        console.cur_x = 0;
    } else if b == 8 {
        if console.cur_x > 0 {
            console.cur_x = console.cur_x - 1;
        } else if console.cur_y > 0 {
            console.cur_y = console.cur_y - 1;
            console.cur_x = console.cols - 1;
        }
        let px = scaled(console.cur_x, console.char_w);
        let py = scaled(console.cur_y, console.char_h);
        draw_rect_at(fb, pitch, px, py, console.char_w, console.char_h, console.bg);
    } else if b == 9 {
        let next = scaled(console.cur_x / TAB_WIDTH + 1, TAB_WIDTH);
        if next >= console.cols {
            console.newline();
        } else {
            console.cur_x = next;
        }
    } else {
        let px = scaled(console.cur_x, console.char_w);
        let py = scaled(console.cur_y, console.char_h);
        if px <= usize::MAX - 8 && py <= usize::MAX - 8 {
            draw_char_at(fb, pitch, px, py, b, console.fg);
        }
        console.cur_x = match console.cur_x.checked_add(1) {
            Some(next) => next,
            None => usize::MAX,
        };
        if console.cur_x >= console.cols {
            line_feed(console, fb, pitch);
        }
    }
}

/// Prints the bytes of `text` to the console, one behind the other.
pub fn console_print(console: &mut Console, fb: &mut [u8], pitch: usize, text: &[u8])
    requires
        old(console).wf(),
    ensures
        final(console).wf(),
        (Screen { console: *final(console), fb: final(fb)@ }) == printed(
            Screen { console: *old(console), fb: old(fb)@ },
            pitch as int,
            text@,
            text@.len() as int,
        ),
{
    let mut i: usize = 0;
    while i < text.len()
        invariant
            i <= text@.len(),
            console.wf(),
            (Screen { console: *console, fb: fb@ }) == printed(
                Screen { console: *old(console), fb: old(fb)@ },
                pitch as int,
                text@,
                i as int,
            ),
        decreases text@.len() - i,
    {
        print_byte(console, fb, pitch, text[i]);
        i += 1;
    }
}

/// The consoles once there is one for the framebuffer seen at `fb_virt`.
pub open spec fn consoles_with(
    consoles: Seq<Console>,
    fb_virt: u64,
    info: Option<FramebufferInfo>,
) -> Seq<Console> {
    match console_position(consoles, fb_virt) {
        Some(_) => consoles,
        None => consoles.push(fresh_console(fb_virt, info)),
    }
}

/// Where the console for the framebuffer seen at `fb_virt` stands once
/// there is one.
pub open spec fn console_index(consoles: Seq<Console>, fb_virt: u64) -> int {
    match console_position(consoles, fb_virt) {
        Some(i) => i,
        None => consoles.len() as int,
    }
}

/// Whether every console of `consoles` has at least one row and column.
pub open spec fn all_wf(consoles: Seq<Console>) -> bool {
    forall|i: int| 0 <= i < consoles.len() ==> (#[trigger] consoles[i]).wf()
}

/// Whether every console of the set has at least one row and column.
pub fn consoles_ok(set: &ConsoleSet) -> (ok: bool)
    ensures
        ok == all_wf(set.consoles@),
{
    let mut i: usize = 0;
    while i < set.consoles.len()
        invariant
            i <= set.consoles@.len(),
            forall|k: int| 0 <= k < i ==> (#[trigger] set.consoles@[k]).wf(),
        decreases set.consoles@.len() - i,
    {
        if set.consoles[i].cols < 1 || set.consoles[i].rows < 1 {
            return false;
        }
        i += 1;
    }
    true
}

/// The pitch of a framebuffer with the geometry `info`.
pub open spec fn pitch_or_default(info: Option<FramebufferInfo>) -> int {
    match info {
        Some(i) => i.pitch as int,
        None => crate::driver_framework::drivers::vbe_vga::DEFAULT_PITCH as int,
    }
}

/// Prints `s` to the console of the first framebuffer. `first_fb` is
/// where that framebuffer is seen, `fb` holds its bytes and `info` its
/// geometry. Without a framebuffer nothing is printed and `false` comes
/// back: the text is then left to the boot screen.
pub fn console_print_first(
    set: &mut ConsoleSet,
    first_fb: Option<u64>,
    info: &Option<FramebufferInfo>,
    fb: &mut [u8],
    s: &str,
) -> (shown: bool)
    requires
        all_wf(old(set).consoles@),
    ensures
        all_wf(final(set).consoles@),
        shown == (first_fb is Some),
        printed_first(
            old(set).consoles@,
            old(fb)@,
            first_fb,
            *info,
            s.spec_bytes(),
            final(set).consoles@,
            final(fb)@,
        ),
{
    match first_fb {
        None => false,
        Some(addr) => {
            let at = get_or_create_console(set, addr, info);
            let mut console = set.consoles[at];
            console_print(&mut console, fb, pitch_of(info), s.as_bytes());
            set.consoles[at] = console;
            true
        },
    }
}

/// Blanks the console of the first framebuffer and puts its cursor into
/// the upper left corner. Without a framebuffer nothing happens and
/// `false` comes back.
pub fn console_clear_first(
    set: &mut ConsoleSet,
    first_fb: Option<u64>,
    info: &Option<FramebufferInfo>,
    fb: &mut [u8],
) -> (cleared: bool)
    requires
        all_wf(old(set).consoles@),
    ensures
        all_wf(final(set).consoles@),
        cleared == (first_fb is Some),
        cleared_first(
            old(set).consoles@,
            old(fb)@,
            first_fb,
            *info,
            final(set).consoles@,
            final(fb)@,
        ),
{
    match first_fb {
        None => false,
        Some(addr) => {
            let at = get_or_create_console(set, addr, info);
            let mut console = set.consoles[at];
            draw_rect_at(
                fb,
                pitch_of(info),
                0,
                0,
                scaled(console.cols, console.char_w),
                scaled(console.rows, console.char_h),
                console.bg,
            );
            console.cur_x = 0;
            console.cur_y = 0;
            set.consoles[at] = console;
            true
        },
    }
}

/// Sets the colours of the console of the first framebuffer. Without a
/// framebuffer nothing happens.
pub fn console_set_colors_first(
    set: &mut ConsoleSet,
    first_fb: Option<u64>,
    info: &Option<FramebufferInfo>,
    fg: u32,
    bg: u32,
)
    requires
        all_wf(old(set).consoles@),
    ensures
        all_wf(final(set).consoles@),
        recoloured_first(old(set).consoles@, first_fb, *info, fg, bg, final(set).consoles@),
{
    match first_fb {
        None => {},
        Some(addr) => {
            let at = get_or_create_console(set, addr, info);
            let mut console = set.consoles[at];
            console.fg = fg;
            console.bg = bg;
            set.consoles[at] = console;
        },
    }
}

/// Puts the cursor of the console of the first framebuffer into column
/// `col` of row `row`, or into the last column or row where there are
/// fewer. Without a framebuffer nothing happens.
pub fn console_set_cursor_first(
    set: &mut ConsoleSet,
    first_fb: Option<u64>,
    info: &Option<FramebufferInfo>,
    col: usize,
    row: usize,
)
    requires
        all_wf(old(set).consoles@),
    ensures
        all_wf(final(set).consoles@),
        cursor_set_first(old(set).consoles@, first_fb, *info, col, row, final(set).consoles@),
{
    match first_fb {
        None => {},
        Some(addr) => {
            let at = get_or_create_console(set, addr, info);
            let mut console = set.consoles[at];
            console.cur_x = if col < console.cols - 1 {
                col
            } else {
                console.cols - 1
            };
            console.cur_y = if row < console.rows - 1 {
                row
            } else {
                console.rows - 1
            };
            set.consoles[at] = console;
        },
    }
}

/// The driver of the console: the console needs nothing of its device, so
/// the driver accepts every device and has nothing to start or to stop.
pub struct ConsoleDriver {}

impl ConsoleDriver {
    /// The driver of the console.
    pub fn new() -> ConsoleDriver {
        ConsoleDriver {  }
    }
}

impl Driver for ConsoleDriver {
    fn probe(&self, _device: &DeviceHandle) -> (r: Result<(), &'static str>)
        ensures
            r is Ok,
    {
        Ok(())
    }

    fn start(&self, _device: &DeviceHandle) -> (r: Result<(), &'static str>)
        ensures
            r is Ok,
    {
        Ok(())
    }

    fn stop(&self, _device: &DeviceHandle) {
    }

    fn release(&self, _device: &DeviceHandle) {
    }
}

/// The driver of the console behind the trait that the registry knows
/// drivers by.
pub open spec fn console_driver() -> DriverBox {
    Box::new(ConsoleDriver {  })
}

/// The driver of the console, as the registry takes drivers.
pub fn boxed_driver() -> (driver: DriverBox)
    ensures
        driver == console_driver(),
{
    let driver: DriverBox = Box::new(ConsoleDriver::new());
    return driver;
}

/// Whether printing `text` to the console of the first framebuffer took
/// the consoles from `before` to `after` and the framebuffer from `fb` to
/// `drawn`: without a framebuffer nothing changes; with one, its console
/// is made where there is none, and the text is printed to it.
pub open spec fn printed_first(
    before: Seq<Console>,
    fb: Seq<u8>,
    first_fb: Option<u64>,
    info: Option<FramebufferInfo>,
    text: Seq<u8>,
    after: Seq<Console>,
    drawn: Seq<u8>,
) -> bool {
    match first_fb {
        None => after == before && drawn == fb,
        Some(addr) => {
            let consoles = consoles_with(before, addr, info);
            let at = console_index(before, addr);
            let screen = printed(
                Screen { console: consoles[at], fb },
                pitch_or_default(info),
                text,
                text.len() as int,
            );
            after == consoles.update(at, screen.console) && drawn == screen.fb
        },
    }
}

/// Whether blanking the console of the first framebuffer took the
/// consoles from `before` to `after` and the framebuffer from `fb` to
/// `drawn`.
pub open spec fn cleared_first(
    before: Seq<Console>,
    fb: Seq<u8>,
    first_fb: Option<u64>,
    info: Option<FramebufferInfo>,
    after: Seq<Console>,
    drawn: Seq<u8>,
) -> bool {
    match first_fb {
        None => after == before && drawn == fb,
        Some(addr) => {
            let consoles = consoles_with(before, addr, info);
            let at = console_index(before, addr);
            let c = consoles[at];
            &&& after == consoles.update(at, Console { cur_x: 0, cur_y: 0, ..c })
            &&& drawn == with_rect(
                fb,
                pitch_or_default(info),
                0,
                0,
                capped(c.cols * c.char_w) as int,
                capped(c.rows * c.char_h) as int,
                c.bg,
            )
        },
    }
}

/// Whether setting the colours of the console of the first framebuffer
/// took the consoles from `before` to `after`.
pub open spec fn recoloured_first(
    before: Seq<Console>,
    first_fb: Option<u64>,
    info: Option<FramebufferInfo>,
    fg: u32,
    bg: u32,
    after: Seq<Console>,
) -> bool {
    match first_fb {
        None => after == before,
        Some(addr) => {
            let consoles = consoles_with(before, addr, info);
            let at = console_index(before, addr);
            after == consoles.update(at, Console { fg, bg, ..consoles[at] })
        },
    }
}

/// Whether moving the cursor of the console of the first framebuffer to
/// column `col` of row `row` took the consoles from `before` to `after`.
pub open spec fn cursor_set_first(
    before: Seq<Console>,
    first_fb: Option<u64>,
    info: Option<FramebufferInfo>,
    col: usize,
    row: usize,
    after: Seq<Console>,
) -> bool {
    match first_fb {
        None => after == before,
        Some(addr) => {
            let consoles = consoles_with(before, addr, info);
            let at = console_index(before, addr);
            let c = consoles[at];
            after == consoles.update(
                at,
                Console {
                    cur_x: if col < c.cols - 1 {
                        col
                    } else {
                        (c.cols - 1) as usize
                    },
                    cur_y: if row < c.rows - 1 {
                        row
                    } else {
                        (c.rows - 1) as usize
                    },
                    ..c
                },
            )
        },
    }
}

} // verus!
