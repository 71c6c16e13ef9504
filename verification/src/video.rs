pub mod cia1;
pub mod control;
pub mod keyboard;

use vstd::prelude::*;

use crate::video::control::{Control, ScreenMode, ScreenState};

verus! {

/// The sixteen colour indices of the C64 palette.
#[derive(Debug, Clone, Copy, PartialEq, Eq, Structural)]
pub enum C64Colour {
    Black,
    White,
    Red,
    Cyan,
    Purple,
    Green,
    Blue,
    Yellow,
    Orange,
    Brown,
    LightRed,
    DarkGrey,
    MediumGrey,
    LightGreen,
    LightBlue,
    LightGrey,
}

impl C64Colour {
    pub open spec fn spec_index(self) -> u8 {
        match self {
            C64Colour::Black => 0,
            C64Colour::White => 1,
            C64Colour::Red => 2,
            C64Colour::Cyan => 3,
            C64Colour::Purple => 4,
            C64Colour::Green => 5,
            C64Colour::Blue => 6,
            C64Colour::Yellow => 7,
            C64Colour::Orange => 8,
            C64Colour::Brown => 9,
            C64Colour::LightRed => 10,
            C64Colour::DarkGrey => 11,
            C64Colour::MediumGrey => 12,
            C64Colour::LightGreen => 13,
            C64Colour::LightBlue => 14,
            C64Colour::LightGrey => 15,
        }
    }

    /// The palette index of the colour (0 to 15).
    #[verifier::when_used_as_spec(spec_index)]
    pub fn index(self) -> (r: u8)
        ensures
            r == self.spec_index(),
            r < 16,
    {
        match self {
            C64Colour::Black => 0,
            C64Colour::White => 1,
            C64Colour::Red => 2,
            C64Colour::Cyan => 3,
            C64Colour::Purple => 4,
            C64Colour::Green => 5,
            C64Colour::Blue => 6,
            C64Colour::Yellow => 7,
            C64Colour::Orange => 8,
            C64Colour::Brown => 9,
            C64Colour::LightRed => 10,
            C64Colour::DarkGrey => 11,
            C64Colour::MediumGrey => 12,
            C64Colour::LightGreen => 13,
            C64Colour::LightBlue => 14,
            C64Colour::LightGrey => 15,
        }
    }
}


/// The RGBA bytes of palette colour `i`.
pub open spec fn palette_rgba(i: int) -> Seq<u8> {
    if i == 0 {
        seq![0x00u8, 0x00u8, 0x00u8, 0xffu8]
    } else if i == 1 {
        seq![0xffu8, 0xffu8, 0xffu8, 0xffu8]
    } else if i == 2 {
        seq![0x88u8, 0x39u8, 0x32u8, 0xffu8]
    } else if i == 3 {
        seq![0x67u8, 0xb6u8, 0xbdu8, 0xffu8]
    } else if i == 4 {
        seq![0x8bu8, 0x3fu8, 0x96u8, 0xffu8]
    } else if i == 5 {
        seq![0x55u8, 0xa0u8, 0x49u8, 0xffu8]
    } else if i == 6 {
        seq![0x40u8, 0x31u8, 0x8du8, 0xffu8]
    } else if i == 7 {
        seq![0xbfu8, 0xceu8, 0x72u8, 0xffu8]
    } else if i == 8 {
        seq![0x8bu8, 0x54u8, 0x29u8, 0xffu8]
    } else if i == 9 {
        seq![0x57u8, 0x42u8, 0x00u8, 0xffu8]
    } else if i == 10 {
        seq![0xb8u8, 0x69u8, 0x62u8, 0xffu8]
    } else if i == 11 {
        seq![0x50u8, 0x50u8, 0x50u8, 0xffu8]
    } else if i == 12 {
        seq![0x7au8, 0x7au8, 0x7au8, 0xffu8]
    } else if i == 13 {
        seq![0x94u8, 0xe0u8, 0x89u8, 0xffu8]
    } else if i == 14 {
        seq![0x78u8, 0x6fu8, 0xc6u8, 0xffu8]
    } else {
        seq![0x9fu8, 0x9fu8, 0x9fu8, 0xffu8]
    }
}

/// The RGBA bytes of palette colour `i`.
pub fn palette(i: u8) -> (r: [u8; 4])
    requires
        i < 16,
    ensures
        r@ == palette_rgba(i as int),
{
    let r: [u8; 4] = match i {
        0 => [0x00, 0x00, 0x00, 0xff],
        1 => [0xff, 0xff, 0xff, 0xff],
        2 => [0x88, 0x39, 0x32, 0xff],
        3 => [0x67, 0xb6, 0xbd, 0xff],
        4 => [0x8b, 0x3f, 0x96, 0xff],
        5 => [0x55, 0xa0, 0x49, 0xff],
        6 => [0x40, 0x31, 0x8d, 0xff],
        7 => [0xbf, 0xce, 0x72, 0xff],
        8 => [0x8b, 0x54, 0x29, 0xff],
        9 => [0x57, 0x42, 0x00, 0xff],
        10 => [0xb8, 0x69, 0x62, 0xff],
        11 => [0x50, 0x50, 0x50, 0xff],
        12 => [0x7a, 0x7a, 0x7a, 0xff],
        13 => [0x94, 0xe0, 0x89, 0xff],
        14 => [0x78, 0x6f, 0xc6, 0xff],
        _ => [0x9f, 0x9f, 0x9f, 0xff],
    };
    proof {
        assert(r@ =~= palette_rgba(i as int));
    }
    r
}

/// The bytes of a pixel in the frame.
pub const BYTES_PER_PIXEL: usize = 4;

/// The geometry of a video standard: the frame size in pixels and the
/// content area inside the border (rows `y_min` up to `y_max`, columns
/// `x_min` to `x_max` included).
#[derive(Debug, Clone, Copy, PartialEq, Eq, Structural)]
pub struct VideoSystem {
    pub width: usize,
    pub height: usize,
    pub y_min: usize,
    pub y_max: usize,
    pub x_min: usize,
    pub x_max: usize,
}

impl VideoSystem {
    /// The content area lies inside the frame, and the frame's bytes can be
    /// counted.
    pub open spec fn valid(self) -> bool {
        &&& 0 < self.width
        &&& 0 < self.height
        &&& self.y_min <= self.y_max <= self.height
        &&& self.x_min <= self.x_max < self.width
        &&& self.width * self.height * 4 <= usize::MAX
    }

    /// The PAL geometry.
    pub fn pal() -> (r: Self)
        ensures
            r == (VideoSystem { width: 428, height: 312, y_min: 28, y_max: 255, x_min: 54, x_max: 373 }),
            r.valid(),
    {
        proof {
            assert(428 * 312 * 4 <= usize::MAX) by (nonlinear_arith);
        }
        VideoSystem { width: 428, height: 312, y_min: 28, y_max: 255, x_min: 54, x_max: 373 }
    }

    /// The NTSC geometry.
    pub fn ntsc() -> (r: Self)
        ensures
            r == (VideoSystem { width: 384, height: 272, y_min: 36, y_max: 235, x_min: 32, x_max: 351 }),
            r.valid(),
    {
        proof {
            assert(384 * 272 * 4 <= usize::MAX) by (nonlinear_arith);
        }
        VideoSystem { width: 384, height: 272, y_min: 36, y_max: 235, x_min: 32, x_max: 351 }
    }
}

/// The number of bytes of a frame of `sys`.
pub open spec fn frame_len(sys: VideoSystem) -> int {
    sys.width * sys.height * 4
}

/// Whether pixel `p` (counted row by row) lies in the content area.
pub open spec fn in_content(sys: VideoSystem, p: int) -> bool {
    let r = p / sys.width as int;
    let c = p % sys.width as int;
    sys.y_min <= r < sys.y_max && sys.x_min <= c <= sys.x_max
}

/// The colour of pixel `p` of an empty screen: the background in the content
/// area, the border around it.
pub open spec fn empty_colour(sys: VideoSystem, p: int, border: u8, bg: u8) -> int {
    if in_content(sys, p) {
        bg as int
    } else {
        border as int
    }
}

/// Writes the colour `rgba` to pixel `p` of `frame`.
fn put_pixel(frame: &mut Vec<u8>, p: usize, rgba: [u8; 4])
    requires
        4 * p + 4 <= old(frame).len(),
    ensures
        final(frame).len() == old(frame).len(),
        forall|q: int|
            0 <= q < old(frame).len() ==> #[trigger] final(frame)@[q] == if 4 * p <= q < 4 * p
                + 4 {
                rgba@[q - 4 * p]
            } else {
                old(frame)@[q]
            },
{
    let b = 4 * p;
    frame.set(b, rgba[0]);
    frame.set(b + 1, rgba[1]);
    frame.set(b + 2, rgba[2]);
    frame.set(b + 3, rgba[3]);
}

/// Where pixel `c` of row `r` lies in a frame `w` pixels wide.
proof fn lemma_pixel_index(r: int, c: int, w: int, h: int)
    requires
        0 <= r < h,
        0 <= c < w,
    ensures
        0 <= r * w + c < h * w,
        r * w + c < w * h,
        w * r == r * w,
        (r * w + c) / w == r,
        (r * w + c) % w == c,
{
    assert(w * r == r * w && h * w == w * h) by (nonlinear_arith);
    assert(r * w + c < h * w) by (nonlinear_arith)
        requires
            0 <= r < h,
            0 <= c < w,
    ;
    assert(0 <= r * w) by (nonlinear_arith)
        requires
            0 <= r,
            0 <= w,
    ;
    vstd::arithmetic::div_mod::lemma_fundamental_div_mod_converse(r * w + c, w, r, c);
}

/// Whether pixel `p` lies in the character cell at column `x`, row `y` of the
/// content area.
pub open spec fn in_cell(sys: VideoSystem, x: int, y: int, p: int) -> bool {
    let r = p / sys.width as int;
    let c = p % sys.width as int;
    sys.y_min + 8 * y <= r < sys.y_min + 8 * y + 8 && sys.x_min + 8 * x <= c < sys.x_min + 8 * x
        + 8
}

/// Whether pixel `bit` (0 the leftmost) of line `line` of character `ch` is
/// set in the character set `chars` (eight bytes per character, bit 7 on
/// the left).
pub open spec fn char_bit(chars: Seq<u8>, ch: int, line: int, bit: int) -> bool {
    chars[ch * 8 + line] & (0x80u8 >> (bit as u8)) != 0
}

/// The colour of pixel `p` of the cell at column `x`, row `y` that shows
/// character `ch` in `fg` on `bg`.
pub open spec fn cell_colour(
    sys: VideoSystem,
    chars: Seq<u8>,
    ch: int,
    x: int,
    y: int,
    p: int,
    fg: u8,
    bg: u8,
) -> int {
    let line = p / sys.width as int - (sys.y_min + 8 * y);
    let bit = p % sys.width as int - (sys.x_min + 8 * x);
    if char_bit(chars, ch, line, bit) {
        fg as int
    } else {
        bg as int
    }
}

/// Whether pixel `p` lies in the text area of `rows` rows of `cols`
/// characters at the top left of the content area.
pub open spec fn in_text(sys: VideoSystem, rows: int, cols: int, p: int) -> bool {
    let r = p / sys.width as int;
    let c = p % sys.width as int;
    sys.y_min <= r < sys.y_min + 8 * rows && sys.x_min <= c < sys.x_min + 8 * cols
}

/// The colour of pixel `p` of the text area: the character of its cell in
/// `screen` drawn in the cell's colour in `colors`, on `bg` (both memories
/// hold one byte per cell, row by row, `cols` cells a row).
pub open spec fn text_colour(
    sys: VideoSystem,
    chars: Seq<u8>,
    screen: Seq<u8>,
    colors: Seq<u8>,
    cols: int,
    p: int,
    bg: u8,
) -> int {
    let row = (p / sys.width as int - sys.y_min) / 8;
    let col = (p % sys.width as int - sys.x_min) / 8;
    let i = row * cols + col;
    cell_colour(sys, chars, screen[i] as int, col, row, p, colors[i], bg)
}

/// The text area fits the frame, and the screen and colour memories hold a
/// character of `chars` and a palette colour for each of its cells.
pub open spec fn text_ok(
    sys: VideoSystem,
    rows: int,
    cols: int,
    chars: Seq<u8>,
    screen: Seq<u8>,
    colors: Seq<u8>,
) -> bool {
    &&& sys.y_min + 8 * rows <= sys.height
    &&& sys.x_min + 8 * cols <= sys.width
    &&& rows * cols <= screen.len()
    &&& rows * cols <= colors.len()
    &&& forall|i: int| 0 <= i < rows * cols ==> #[trigger] colors[i] < 16
    &&& forall|i: int| 0 <= i < rows * cols ==> #[trigger] screen[i] * 8 + 8 <= chars.len()
}

/// Whether the video registers `reg` have the screen on in text mode.
pub open spec fn shows_text(reg: Seq<u8>) -> bool {
    reg[0x11] & 0b10000 != 0 && reg[0x11] & 0b100000 == 0
}

/// The screen of the video chip as the CPU sees it: where the screen and
/// colour memory start, the geometry of the frame and the text layout.
#[derive(Debug, Clone, Copy, PartialEq, Eq, Structural)]
pub struct Video {
    pub ram_base: u16,
    pub color_ram_base: u16,
    pub system: VideoSystem,
    pub rows: u8,
    pub cols: u8,
}

impl Video {
    /// A PAL screen of 25 rows of 40 characters with its screen memory at
    /// `ram_base` and its colour memory at `color_ram_base`.
    pub fn new(ram_base: u16, color_ram_base: u16) -> (r: Self)
        ensures
            r.ram_base == ram_base,
            r.color_ram_base == color_ram_base,
            r.system == (VideoSystem { width: 428, height: 312, y_min: 28, y_max: 255, x_min: 54, x_max: 373 }),
            r.rows == 25,
            r.cols == 40,
    {
        Video { ram_base, color_ram_base, system: VideoSystem::pal(), rows: 25, cols: 40 }
    }

    /// Fills the whole frame with the border colour.
    pub fn do_blank_screen(&self, frame: &mut Vec<u8>, border_col: u8)
        requires
            old(frame).len() % 4 == 0,
            border_col < 16,
        ensures
            final(frame).len() == old(frame).len(),
            forall|q: int|
                0 <= q < final(frame).len() ==> #[trigger] final(frame)@[q] == palette_rgba(
                    border_col as int,
                )[q % 4],
    {
        let color = palette(border_col);
        let n = frame.len() / BYTES_PER_PIXEL;
        let ghost len = frame.len();
        let mut p: usize = 0;
        while p < n
            invariant
                frame.len() == len,
                len % 4 == 0,
                n == len / 4,
                p <= n,
                color@ == palette_rgba(border_col as int),
                forall|q: int| 0 <= q < 4 * p ==> #[trigger] frame@[q] == palette_rgba(
                    border_col as int,
                )[q % 4],
            decreases n - p,
        {
            put_pixel(frame, p, color);
            p = p + 1;
        }
    }

    /// Paints an empty screen: the background colour in the content area and
    /// the border colour around it.
    pub fn do_empty_screen(&self, frame: &mut Vec<u8>, border_col: u8, bg_col: u8)
        requires
            self.system.valid(),
            old(frame).len() == frame_len(self.system),
            border_col < 16,
            bg_col < 16,
        ensures
            final(frame).len() == old(frame).len(),
            forall|q: int|
                0 <= q < final(frame).len() ==> #[trigger] final(frame)@[q] == palette_rgba(
                    empty_colour(self.system, q / 4, border_col, bg_col),
                )[q % 4],
    {
        let sys = self.system;
        let border = palette(border_col);
        let bg = palette(bg_col);
        proof {
            assert(sys.width * sys.height * 4 == 4 * (sys.width * sys.height)) by (nonlinear_arith);
        }
        let n = sys.width * sys.height;
        let ghost len = frame.len();
        let mut p: usize = 0;
        while p < n
            invariant
                frame.len() == len,
                len == 4 * n,
                n == sys.width * sys.height,
                sys == self.system,
                sys.valid(),
                p <= n,
                border@ == palette_rgba(border_col as int),
                bg@ == palette_rgba(bg_col as int),
                forall|q: int| 0 <= q < 4 * p ==> #[trigger] frame@[q] == palette_rgba(
                    empty_colour(sys, q / 4, border_col, bg_col),
                )[q % 4],
            decreases n - p,
        {
            let r = p / sys.width;
            let c = p % sys.width;
            let inside = sys.y_min <= r && r < sys.y_max && sys.x_min <= c && c <= sys.x_max;
            if inside {
                put_pixel(frame, p, bg);
            } else {
                put_pixel(frame, p, border);
            }
            p = p + 1;
        }
    }

    /// Draws character `ch` of `chars` in the cell at column `x`, row `y` of
    /// the content area, in colour `fg_col` on `bg_col`; the rest of the frame
    /// stays as it was.
    pub fn do_char_at(&self, frame: &mut Vec<u8>, chars: &[u8], ch: u8, x: u8, y: u8, fg_col: u8, bg_col: u8)
        requires
            self.system.valid(),
            old(frame).len() == frame_len(self.system),
            fg_col < 16,
            bg_col < 16,
            ch * 8 + 8 <= chars@.len(),
            self.system.y_min + 8 * y + 8 <= self.system.height,
            self.system.x_min + 8 * x + 8 <= self.system.width,
        ensures
            final(frame).len() == old(frame).len(),
            forall|q: int|
                0 <= q < old(frame).len() ==> #[trigger] final(frame)@[q] == if in_cell(
                    self.system,
                    x as int,
                    y as int,
                    q / 4,
                ) {
                    palette_rgba(
                        cell_colour(self.system, chars@, ch as int, x as int, y as int, q / 4, fg_col, bg_col),
                    )[q % 4]
                } else {
                    old(frame)@[q]
                },
    {
        let sys = self.system;
        let fg = palette(fg_col);
        let bg = palette(bg_col);
        let row0 = sys.y_min + 8 * (y as usize);
        let col0 = sys.x_min + 8 * (x as usize);
        let ghost f0 = frame@;
        let ghost w = sys.width as int;
        proof {
            assert(sys.width * sys.height * 4 == 4 * (sys.width * sys.height)) by (nonlinear_arith);
        }
        let mut line: usize = 0;
        while line < 8
            invariant
                sys == self.system,
                sys.valid(),
                w == sys.width,
                frame.len() == f0.len(),
                f0.len() == frame_len(sys),
                f0.len() == 4 * (sys.width * sys.height),
                row0 == sys.y_min + 8 * y,
                col0 == sys.x_min + 8 * x,
                row0 + 8 <= sys.height,
                col0 + 8 <= sys.width,
                ch * 8 + 8 <= chars@.len(),
                fg@ == palette_rgba(fg_col as int),
                bg@ == palette_rgba(bg_col as int),
                line <= 8,
                forall|q: int|
                    0 <= q < f0.len() ==> #[trigger] frame@[q] == if in_cell(
                        sys,
                        x as int,
                        y as int,
                        q / 4,
                    ) && (q / 4) / w < row0 + line {
                        palette_rgba(
                            cell_colour(sys, chars@, ch as int, x as int, y as int, q / 4, fg_col, bg_col),
                        )[q % 4]
                    } else {
                        f0[q]
                    },
            decreases 8 - line,
        {
            let pixels = chars[ch as usize * 8 + line];
            let row = row0 + line;
            let mut bit: usize = 0;
            while bit < 8
                invariant
                    sys == self.system,
                    sys.valid(),
                    w == sys.width,
                    frame.len() == f0.len(),
                    f0.len() == 4 * (sys.width * sys.height),
                    row0 == sys.y_min + 8 * y,
                    col0 == sys.x_min + 8 * x,
                    row0 + 8 <= sys.height,
                    col0 + 8 <= sys.width,
                    line < 8,
                    row == row0 + line,
                    pixels == chars@[ch * 8 + line],
                    fg@ == palette_rgba(fg_col as int),
                    bg@ == palette_rgba(bg_col as int),
                    bit <= 8,
                    forall|q: int|
                        0 <= q < f0.len() ==> #[trigger] frame@[q] == if in_cell(
                            sys,
                            x as int,
                            y as int,
                            q / 4,
                        ) && ((q / 4) / w < row || ((q / 4) / w == row && (q / 4) % w < col0
                            + bit)) {
                            palette_rgba(
                                cell_colour(sys, chars@, ch as int, x as int, y as int, q / 4, fg_col, bg_col),
                            )[q % 4]
                        } else {
                            f0[q]
                        },
                decreases 8 - bit,
            {
                proof {
                    lemma_pixel_index(row as int, (col0 + bit) as int, w, sys.height as int);
                    assert(row * w + col0 + bit < sys.width * sys.height);
                }
                let p = row * sys.width + col0 + bit;
                let set = pixels & (0x80u8 >> (bit as u8)) != 0;
                let ghost before = frame@;
                if set {
                    put_pixel(frame, p, fg);
                } else {
                    put_pixel(frame, p, bg);
                }
                proof {
                    assert forall|q: int| 0 <= q < f0.len() implies #[trigger] frame@[q] == if in_cell(
                        sys,
                        x as int,
                        y as int,
                        q / 4,
                    ) && ((q / 4) / w < row || ((q / 4) / w == row && (q / 4) % w < col0 + bit
                        + 1)) {
                        palette_rgba(
                            cell_colour(sys, chars@, ch as int, x as int, y as int, q / 4, fg_col, bg_col),
                        )[q % 4]
                    } else {
                        f0[q]
                    } by {
                        vstd::arithmetic::div_mod::lemma_fundamental_div_mod(q / 4, w);
                        if 4 * p <= q < 4 * p + 4 {
                            assert(q / 4 == p);
                        } else {
                            assert(frame@[q] == before[q]);
                            if (q / 4) / w == row && (q / 4) % w == col0 + bit {
                                assert(w * row == row * w);
                                assert(q / 4 == p);
                            }
                        }
                    }
                }
                bit = bit + 1;
            }
            line = line + 1;
        }
    }

    /// Draws the text screen: each cell shows the character that the screen
    /// memory holds for it in the colour that the colour memory holds, on
    /// the background colour; outside the text area the frame stays.
    pub fn draw_text_screen(&self, frame: &mut Vec<u8>, chars: &[u8], screen: &[u8], colors: &[u8], bg_col: u8)
        requires
            self.system.valid(),
            old(frame).len() == frame_len(self.system),
            bg_col < 16,
            text_ok(self.system, self.rows as int, self.cols as int, chars@, screen@, colors@),
        ensures
            final(frame).len() == old(frame).len(),
            forall|q: int|
                0 <= q < old(frame).len() ==> #[trigger] final(frame)@[q] == if in_text(
                    self.system,
                    self.rows as int,
                    self.cols as int,
                    q / 4,
                ) {
                    palette_rgba(
                        text_colour(self.system, chars@, screen@, colors@, self.cols as int, q / 4, bg_col),
                    )[q % 4]
                } else {
                    old(frame)@[q]
                },
    {
        let sys = self.system;
        let rows = self.rows as usize;
        let cols = self.cols as usize;
        let ghost f0 = frame@;
        let ghost w = sys.width as int;
        let mut row: usize = 0;
        while row < rows
            invariant
                sys == self.system,
                sys.valid(),
                w == sys.width,
                rows == self.rows,
                cols == self.cols,
                rows <= 255,
                cols <= 255,
                frame.len() == f0.len(),
                f0.len() == frame_len(sys),
                bg_col < 16,
                text_ok(sys, rows as int, cols as int, chars@, screen@, colors@),
                row <= rows,
                forall|q: int|
                    0 <= q < f0.len() ==> #[trigger] frame@[q] == if in_text(
                        sys,
                        rows as int,
                        cols as int,
                        q / 4,
                    ) && (q / 4 / w - sys.y_min) / 8 < row {
                        palette_rgba(text_colour(sys, chars@, screen@, colors@, cols as int, q / 4, bg_col))[q
                            % 4]
                    } else {
                        f0[q]
                    },
            decreases rows - row,
        {
            let mut col: usize = 0;
            while col < cols
                invariant
                    sys == self.system,
                    sys.valid(),
                    w == sys.width,
                    rows == self.rows,
                    cols == self.cols,
                    rows <= 255,
                    cols <= 255,
                    frame.len() == f0.len(),
                    f0.len() == frame_len(sys),
                    bg_col < 16,
                    text_ok(sys, rows as int, cols as int, chars@, screen@, colors@),
                    row < rows,
                    col <= cols,
                    forall|q: int|
                        0 <= q < f0.len() ==> #[trigger] frame@[q] == if in_text(
                            sys,
                            rows as int,
                            cols as int,
                            q / 4,
                        ) && ((q / 4 / w - sys.y_min) / 8 < row || ((q / 4 / w - sys.y_min) / 8
                            == row && (q / 4 % w - sys.x_min) / 8 < col)) {
                            palette_rgba(
                                text_colour(sys, chars@, screen@, colors@, cols as int, q / 4, bg_col),
                            )[q % 4]
                        } else {
                            f0[q]
                        },
                decreases cols - col,
            {
                proof {
                    lemma_pixel_index(row as int, col as int, cols as int, rows as int);
                    assert(rows * cols <= 65025) by (nonlinear_arith)
                        requires
                            rows <= 255,
                            cols <= 255,
                    ;
                }
                let i = row * cols + col;
                let ch = screen[i];
                let fg = colors[i];
                let ghost before = frame@;
                self.do_char_at(frame, chars, ch, col as u8, row as u8, fg, bg_col);
                proof {
                    assert forall|q: int| 0 <= q < f0.len() implies #[trigger] frame@[q] == if in_text(
                        sys,
                        rows as int,
                        cols as int,
                        q / 4,
                    ) && ((q / 4 / w - sys.y_min) / 8 < row || ((q / 4 / w - sys.y_min) / 8
                        == row && (q / 4 % w - sys.x_min) / 8 < col + 1)) {
                        palette_rgba(
                            text_colour(sys, chars@, screen@, colors@, cols as int, q / 4, bg_col),
                        )[q % 4]
                    } else {
                        f0[q]
                    } by {
                        if in_cell(sys, col as int, row as int, q / 4) {
                            assert((q / 4 / w - sys.y_min) / 8 == row);
                            assert((q / 4 % w - sys.x_min) / 8 == col);
                        } else {
                            assert(frame@[q] == before[q]);
                        }
                    }
                }
                col = col + 1;
            }
            proof {
                assert forall|q: int| 0 <= q < f0.len() implies #[trigger] frame@[q] == if in_text(
                    sys,
                    rows as int,
                    cols as int,
                    q / 4,
                ) && (q / 4 / w - sys.y_min) / 8 < row + 1 {
                    palette_rgba(text_colour(sys, chars@, screen@, colors@, cols as int, q / 4, bg_col))[q
                        % 4]
                } else {
                    f0[q]
                } by {}
            }
            row = row + 1;
        }
    }

    /// Redraws the frame for the video registers `control`: with the screen
    /// on in text mode, the text screen (see `draw_text_screen`) on the
    /// background colour; otherwise the whole frame in the border colour.
    pub fn redraw_screen(&self, frame: &mut Vec<u8>, control: &Control, chars: &[u8], screen: &[u8], colors: &[u8])
        requires
            self.system.valid(),
            old(frame).len() == frame_len(self.system),
            shows_text(control.reg@) ==> text_ok(
                self.system,
                self.rows as int,
                self.cols as int,
                chars@,
                screen@,
                colors@,
            ),
        ensures
            final(frame).len() == old(frame).len(),
            shows_text(control.reg@) ==> forall|q: int|
                0 <= q < old(frame).len() ==> #[trigger] final(frame)@[q] == if in_text(
                    self.system,
                    self.rows as int,
                    self.cols as int,
                    q / 4,
                ) {
                    palette_rgba(
                        text_colour(
                            self.system,
                            chars@,
                            screen@,
                            colors@,
                            self.cols as int,
                            q / 4,
                            control.reg[0x21] % 16,
                        ),
                    )[q % 4]
                } else {
                    old(frame)@[q]
                },
            !shows_text(control.reg@) ==> forall|q: int|
                0 <= q < old(frame).len() ==> #[trigger] final(frame)@[q] == palette_rgba(
                    (control.reg[0x20] % 16) as int,
                )[q % 4],
    {
        proof {
            let sys = self.system;
            assert((sys.width * sys.height * 4) % 4 == 0) by (nonlinear_arith);
        }
        match (control.get_screen_state(), control.get_screen_mode()) {
            (ScreenState::On, ScreenMode::Text) => {
                let bg = control.get_background_color();
                self.draw_text_screen(frame, chars, screen, colors, bg);
            },
            _ => {
                let border = control.get_border_color();
                self.do_blank_screen(frame, border);
            },
        }
    }
}


/// The weight of pixel `bit` (0 the leftmost) in a line of a character:
/// 128 for the leftmost pixel, halving to 1 for the rightmost.
pub open spec fn pixel_weight(bit: int) -> int {
    if bit == 0 {
        128
    } else if bit == 1 {
        64
    } else if bit == 2 {
        32
    } else if bit == 3 {
        16
    } else if bit == 4 {
        8
    } else if bit == 5 {
        4
    } else if bit == 6 {
        2
    } else {
        1
    }
}

proof fn lemma_byte_bits(x: u8)
    by (bit_vector)
    ensures
        (x & (0x80u8 >> 0u8) != 0) == ((x / 128) % 2 == 1),
        (x & (0x80u8 >> 1u8) != 0) == ((x / 64) % 2 == 1),
        (x & (0x80u8 >> 2u8) != 0) == ((x / 32) % 2 == 1),
        (x & (0x80u8 >> 3u8) != 0) == ((x / 16) % 2 == 1),
        (x & (0x80u8 >> 4u8) != 0) == ((x / 8) % 2 == 1),
        (x & (0x80u8 >> 5u8) != 0) == ((x / 4) % 2 == 1),
        (x & (0x80u8 >> 6u8) != 0) == ((x / 2) % 2 == 1),
        (x & (0x80u8 >> 7u8) != 0) == (x % 2 == 1),
{
}

/// A line of a character is drawn from its top bit on the left to its
/// bottom bit on the right: pixel `bit` is set exactly when the line's byte,
/// divided by that pixel's weight, is odd.
pub proof fn lemma_char_bit_order(chars: Seq<u8>, ch: int, line: int, bit: int)
    requires
        0 <= bit < 8,
    ensures
        char_bit(chars, ch, line, bit) == (((chars[ch * 8 + line] as int) / pixel_weight(bit)) % 2 == 1),
{
    lemma_byte_bits(chars[ch * 8 + line]);
}

} // verus!
