use vstd::prelude::*;

use crate::text::{decimal, push_decimal};

verus! {

/// The way a frame is drawn in the terminal.
#[derive(Clone, Copy, Debug, PartialEq, Eq, Structural)]
pub enum PrinterType {
    /// One grayscale character of the ramp ` .:-=+*#%@` per cell.
    Ascii,
    /// One upper half block per cell, in 24-bit color: the foreground is the
    /// upper pixel and the background the lower one.
    Color,
}

/// A pixel color as the color printer reads it.
///
/// `r`, `g` and `b` are the channels written in the escape sequences: each
/// component times 255, converted with `as u32` (rounded toward zero, negative
/// values and NaN to 0). `r_bits`, `g_bits` and `b_bits` are the IEEE-754
/// binary32 encodings of the components (`f32::to_bits`): colors are compared
/// by them, with the equality of floating-point numbers.
#[derive(Clone, Copy, Debug, PartialEq, Eq, Structural)]
pub struct Color {
    pub r: u32,
    pub g: u32,
    pub b: u32,
    pub r_bits: u32,
    pub g_bits: u32,
    pub b_bits: u32,
}

impl Color {
    pub fn new(r: u32, g: u32, b: u32, r_bits: u32, g_bits: u32, b_bits: u32) -> (c: Self)
        ensures
            c == (Color { r, g, b, r_bits, g_bits, b_bits }),
    {
        Color { r, g, b, r_bits, g_bits, b_bits }
    }
}

/// Turns a frame into the bytes that draw it in a terminal.
///
/// A terminal cell holds two pixels stacked vertically, so a frame of
/// `width` x `2 * height` pixels fills `width` x `height` cells.
pub struct Printer {
    pub printer_type: PrinterType,
    /// Width of the frame in cells (and pixels).
    pub width: usize,
    /// Height of the frame in cells: half the height in pixels.
    pub height: usize,
    /// The bytes of the last printed frame.
    pub buff: Vec<u8>,
    /// Whether each line starts with a carriage return before the line feed
    /// (terminals on Windows need it).
    pub carriage_return: bool,
}

/// The magnitude of an IEEE-754 binary32 encoding: everything but the sign.
pub open spec fn f32_magnitude(bits: u32) -> int {
    bits as int % 0x8000_0000
}

/// Whether an IEEE-754 binary32 encoding is a NaN: all exponent bits set
/// and a nonzero fraction.
pub open spec fn f32_is_nan(bits: u32) -> bool {
    f32_magnitude(bits) > 0x7f80_0000
}

/// Floating-point equality of two binary32 encodings: no NaN equals
/// anything, the two zeros are equal, and otherwise the encodings agree.
pub open spec fn f32_bits_equal(a: u32, b: u32) -> bool {
    &&& !f32_is_nan(a)
    &&& !f32_is_nan(b)
    &&& (a == b || (f32_magnitude(a) == 0 && f32_magnitude(b) == 0))
}

/// Whether two colors compare equal, component by component.
pub open spec fn same_color(a: Color, b: Color) -> bool {
    &&& f32_bits_equal(a.r_bits, b.r_bits)
    &&& f32_bits_equal(a.g_bits, b.g_bits)
    &&& f32_bits_equal(a.b_bits, b.b_bits)
}

/// Black, the color the terminal is set to at the start of a frame.
pub open spec fn black() -> Color {
    Color { r: 0, g: 0, b: 0, r_bits: 0, g_bits: 0, b_bits: 0 }
}

/// `ESC [ H ESC [ ? 2 5 l`: cursor home, cursor hidden.
pub open spec fn start_sequence() -> Seq<u8> {
    seq![27u8, 91u8, 72u8, 27u8, 91u8, 63u8, 50u8, 53u8, 108u8]
}

/// The grayscale ramp ` .:-=+*#%@`, from dark to bright.
pub open spec fn ramp() -> Seq<u8> {
    seq![32u8, 46u8, 58u8, 45u8, 61u8, 43u8, 42u8, 35u8, 37u8, 64u8]
}

/// The upper half block `▀` in UTF-8.
pub open spec fn half_block() -> Seq<u8> {
    seq![226u8, 150u8, 128u8]
}

/// `ESC [ <layer> 8 ; 2 ; r ; g ; b m`: a 24-bit color escape sequence, where
/// `layer` is the ASCII digit `3` (foreground) or `4` (background).
pub open spec fn color_code(layer: u8, c: Color) -> Seq<u8> {
    seq![27u8, 91u8, layer, 56u8, 59u8, 50u8, 59u8] + decimal(c.r as nat) + seq![59u8] + decimal(
        c.g as nat,
    ) + seq![59u8] + decimal(c.b as nat) + seq![109u8]
}

pub open spec fn fg_code(c: Color) -> Seq<u8> {
    color_code(51u8, c)
}

pub open spec fn bg_code(c: Color) -> Seq<u8> {
    color_code(52u8, c)
}

pub open spec fn line_break(carriage_return: bool) -> Seq<u8> {
    if carriage_return {
        seq![13u8, 10u8]
    } else {
        seq![10u8]
    }
}

/// What a frame starts with: the start sequence, then in color mode black as
/// the current foreground and background.
pub open spec fn header(t: PrinterType) -> Seq<u8> {
    match t {
        PrinterType::Ascii => start_sequence(),
        PrinterType::Color => start_sequence() + fg_code(black()) + bg_code(black()),
    }
}

/// The upper pixel of cell `(i, j)`: pixel row `2 i`.
pub open spec fn top_pixel(colors: Seq<Color>, width: nat, i: nat, j: nat) -> Color {
    colors[((2 * i) * width + j) as int]
}

/// The lower pixel of cell `(i, j)`: pixel row `2 i + 1`.
pub open spec fn bottom_pixel(colors: Seq<Color>, width: nat, i: nat, j: nat) -> Color {
    colors[((2 * i + 1) * width + j) as int]
}

/// The ramp index of cell `(i, j)` in a row-major grid of cells.
pub open spec fn cell_level(levels: Seq<usize>, width: nat, i: nat, j: nat) -> int {
    levels[(i * width + j) as int] as int
}

/// The colors of a frame, read in color mode, and the ramp index of each
/// cell, read in ASCII mode.
pub ghost struct Frame {
    pub colors: Seq<Color>,
    pub levels: Seq<usize>,
}

/// Printing state: the bytes so far, the current foreground and background.
pub type PrintState = (Seq<u8>, Color, Color);

/// Cell `(i, j)` of `frame`. In ASCII mode it is the character of the ramp
/// at its index; in color mode an escape sequence is emitted for a color that
/// compares unequal to the current one, which it then replaces, and the cell
/// is an upper half block.
pub open spec fn cell_step(
    t: PrinterType,
    width: nat,
    frame: Frame,
    i: nat,
    j: nat,
    st: PrintState,
) -> PrintState {
    match t {
        PrinterType::Ascii => (st.0.push(ramp()[cell_level(frame.levels, width, i, j)]), st.1, st.2),
        PrinterType::Color => {
            let top = top_pixel(frame.colors, width, i, j);
            let bottom = bottom_pixel(frame.colors, width, i, j);
            let fg_changes = !same_color(st.1, top);
            let bg_changes = !same_color(st.2, bottom);
            let s1 = if fg_changes {
                st.0 + fg_code(top)
            } else {
                st.0
            };
            let s2 = if bg_changes {
                s1 + bg_code(bottom)
            } else {
                s1
            };
            (
                s2 + half_block(),
                if fg_changes {
                    top
                } else {
                    st.1
                },
                if bg_changes {
                    bottom
                } else {
                    st.2
                },
            )
        },
    }
}

/// State after the first `i` rows of cells.
pub open spec fn rows_done(
    t: PrinterType,
    width: nat,
    carriage_return: bool,
    frame: Frame,
    i: nat,
) -> PrintState
    decreases i, 0nat,
{
    if i == 0 {
        (header(t), black(), black())
    } else {
        cells_done(t, width, carriage_return, frame, (i - 1) as nat, width)
    }
}

/// State after the first `i` rows and the line break and first `j` cells of
/// row `i`.
pub open spec fn cells_done(
    t: PrinterType,
    width: nat,
    carriage_return: bool,
    frame: Frame,
    i: nat,
    j: nat,
) -> PrintState
    decreases i, j + 1,
{
    if j == 0 {
        let st = rows_done(t, width, carriage_return, frame, i);
        (st.0 + line_break(carriage_return), st.1, st.2)
    } else {
        cell_step(
            t,
            width,
            frame,
            i,
            (j - 1) as nat,
            cells_done(t, width, carriage_return, frame, i, (j - 1) as nat),
        )
    }
}

fn push_start_sequence(buf: &mut Vec<u8>)
    ensures
        final(buf)@ == old(buf)@ + start_sequence(),
{
    buf.push(27u8);
    buf.push(91u8);
    buf.push(72u8);
    buf.push(27u8);
    buf.push(91u8);
    buf.push(63u8);
    buf.push(50u8);
    buf.push(53u8);
    buf.push(108u8);
}

fn push_color_code(buf: &mut Vec<u8>, layer: u8, c: Color)
    ensures
        final(buf)@ == old(buf)@ + color_code(layer, c),
{
    let ghost start = buf@;
    buf.push(27u8);
    buf.push(91u8);
    buf.push(layer);
    buf.push(56u8);
    buf.push(59u8);
    buf.push(50u8);
    buf.push(59u8);
    assert(buf@ == start + seq![27u8, 91u8, layer, 56u8, 59u8, 50u8, 59u8]);
    push_decimal(buf, c.r as u64);
    buf.push(59u8);
    push_decimal(buf, c.g as u64);
    buf.push(59u8);
    push_decimal(buf, c.b as u64);
    buf.push(109u8);
    assert(buf@ == start + color_code(layer, c));
}

fn push_half_block(buf: &mut Vec<u8>)
    ensures
        final(buf)@ == old(buf)@ + half_block(),
{
    buf.push(226u8);
    buf.push(150u8);
    buf.push(128u8);
}

fn push_line_break(buf: &mut Vec<u8>, carriage_return: bool)
    ensures
        final(buf)@ == old(buf)@ + line_break(carriage_return),
{
    if carriage_return {
        buf.push(13u8);
    }
    buf.push(10u8);
}

/// The character of the ramp at `idx`.
fn ramp_byte(idx: usize) -> (b: u8)
    requires
        idx <= 9,
    ensures
        b == ramp()[idx as int],
{
    if idx == 0 {
        32u8
    } else if idx == 1 {
        46u8
    } else if idx == 2 {
        58u8
    } else if idx == 3 {
        45u8
    } else if idx == 4 {
        61u8
    } else if idx == 5 {
        43u8
    } else if idx == 6 {
        42u8
    } else if idx == 7 {
        35u8
    } else if idx == 8 {
        37u8
    } else {
        64u8
    }
}


fn f32_bits_equal_exec(a: u32, b: u32) -> (r: bool)
    ensures
        r == f32_bits_equal(a, b),
{
    let ma: u32 = a % 0x8000_0000u32;
    let mb: u32 = b % 0x8000_0000u32;
    ma <= 0x7f80_0000u32 && mb <= 0x7f80_0000u32 && (a == b || (ma == 0 && mb == 0))
}

fn same_color_exec(a: Color, b: Color) -> (r: bool)
    ensures
        r == same_color(a, b),
{
    f32_bits_equal_exec(a.r_bits, b.r_bits) && f32_bits_equal_exec(a.g_bits, b.g_bits)
        && f32_bits_equal_exec(a.b_bits, b.b_bits)
}

proof fn lemma_cell_in_frame(i: int, j: int, h: int, w: int)
    by (nonlinear_arith)
    requires
        0 <= i < h,
        0 <= j < w,
    ensures
        (2 * i) * w + j < (2 * i + 1) * w + j,
        (2 * i + 1) * w + j < 2 * h * w,
        2 * i + 1 < 2 * h,
        2 * h <= 2 * h * w,
        i * w + j < h * w,
        h * w <= 2 * h * w,
{
}

/// Whether a printer of type `t` for `height` x `width` cells can print `frame`.
pub open spec fn frame_fits(t: PrinterType, height: nat, width: nat, frame: Frame) -> bool {
    match t {
        PrinterType::Color => 2 * height * width <= frame.colors.len(),
        PrinterType::Ascii => {
            &&& height * width <= frame.levels.len()
            &&& forall|k: int| 0 <= k < height * width ==> #[trigger] frame.levels[k] <= 9
        },
    }
}

impl Printer {
    /// The bytes that print `frame`.
    pub open spec fn printed(self, frame: Frame) -> Seq<u8> {
        rows_done(
            self.printer_type,
            self.width as nat,
            self.carriage_return,
            frame,
            self.height as nat,
        ).0
    }

    /// The frames that can be printed. In color mode: at least `2 * height`
    /// rows of `width` pixels. In ASCII mode: a ramp index for each of the
    /// `height * width` cells, none past the end of the ramp.
    pub open spec fn accepts_frame(self, frame: Frame) -> bool {
        frame_fits(self.printer_type, self.height as nat, self.width as nat, frame)
    }

    /// A printer for a frame of `width` x `height` pixels. Lines end with a
    /// bare line feed: on Windows the caller sets `carriage_return`.
    pub fn new(printer_type: PrinterType, width: usize, height: usize) -> (p: Self)
        ensures
            p.printer_type == printer_type,
            p.width == width,
            p.height == height / 2,
            p.buff@ == Seq::<u8>::empty(),
            !p.carriage_return,
    {
        Self { printer_type, width, height: height / 2, buff: Vec::new(), carriage_return: false }
    }

    /// Follows a new frame size of `width` x `height` pixels.
    pub fn resize(&mut self, width: usize, height: usize)
        ensures
            final(self).width == width,
            final(self).height == height / 2,
            final(self).printer_type == old(self).printer_type,
            final(self).buff@ == old(self).buff@,
            final(self).carriage_return == old(self).carriage_return,
    {
        self.width = width;
        self.height = height / 2;
    }

    /// Whether `print` accepts the frame of `colors` and cell ramp indices
    /// `levels`.
    pub fn accepts(&self, colors: &[Color], levels: &[usize]) -> (ok: bool)
        ensures
            ok == self.accepts_frame(Frame { colors: colors@, levels: levels@ }),
    {
        let width: usize = self.width;
        let height: usize = self.height;
        let n_pixels: usize = colors.len();
        let n_levels: usize = levels.len();
        let ghost frame = Frame { colors: colors@, levels: levels@ };
        proof {
            assert(2 * height * width == 2 * (height * width)) by (nonlinear_arith);
        }
        let cells: usize = match height.checked_mul(width) {
            Some(n) => n,
            None => {
                assert(!frame_fits(self.printer_type, height as nat, width as nat, frame));
                return false;
            },
        };
        match self.printer_type {
            PrinterType::Color => match cells.checked_mul(2) {
                Some(n) => n <= n_pixels,
                None => false,
            },
            PrinterType::Ascii => {
                if cells > n_levels {
                    return false;
                }
                let mut k: usize = 0;
                while k < cells
                    invariant
                        frame == (Frame { colors: colors@, levels: levels@ }),
                        self.printer_type == PrinterType::Ascii,
                        self.width == width,
                        self.height == height,
                        cells == height * width,
                        cells <= levels@.len(),
                        0 <= k <= cells,
                        forall|m: int| 0 <= m < k ==> #[trigger] levels@[m] <= 9,
                    decreases cells - k,
                {
                    if levels[k] > 9 {
                        assert(frame.levels[k as int] > 9);
                        return false;
                    }
                    k = k + 1;
                }
                assert(frame.levels == levels@);
                true
            },
        }
    }

    /// Writes into `buff` the bytes that draw a frame: the start sequence,
    /// then for each row of cells a line break and one glyph per cell. In
    /// color mode the glyphs take `colors` (row-major, `width` pixels per row);
    /// in ASCII mode they take `levels`, the ramp index of each cell
    /// (row-major, `width` cells per row).
    pub fn print(&mut self, colors: &[Color], levels: &[usize])
        requires
            old(self).accepts_frame(Frame { colors: colors@, levels: levels@ }),
        ensures
            final(self).printer_type == old(self).printer_type,
            final(self).width == old(self).width,
            final(self).height == old(self).height,
            final(self).carriage_return == old(self).carriage_return,
            final(self).buff@ == old(self).printed(Frame { colors: colors@, levels: levels@ }),
    {
        let t: PrinterType = self.printer_type;
        let width: usize = self.width;
        let height: usize = self.height;
        let cr: bool = self.carriage_return;
        let ghost w = width as nat;
        let ghost frame = Frame { colors: colors@, levels: levels@ };
        let n_pixels: usize = colors.len();
        let n_levels: usize = levels.len();

        self.buff.clear();
        push_start_sequence(&mut self.buff);

        let mut curr_fg: Color = Color { r: 0, g: 0, b: 0, r_bits: 0, g_bits: 0, b_bits: 0 };
        let mut curr_bg: Color = Color { r: 0, g: 0, b: 0, r_bits: 0, g_bits: 0, b_bits: 0 };
        if t == PrinterType::Color {
            push_color_code(&mut self.buff, 51u8, curr_fg);
            push_color_code(&mut self.buff, 52u8, curr_bg);
        }

        let mut i: usize = 0;
        while i < height
            invariant
                self.printer_type == t,
                self.width == width,
                self.height == height,
                self.carriage_return == cr,
                w == width as nat,
                frame == (Frame { colors: colors@, levels: levels@ }),
                n_pixels == colors@.len(),
                n_levels == levels@.len(),
                0 <= i <= height,
                frame_fits(t, height as nat, w, frame),
                rows_done(t, w, cr, frame, i as nat) == (self.buff@, curr_fg, curr_bg),
            decreases height - i,
        {
            push_line_break(&mut self.buff, cr);
            let mut j: usize = 0;
            while j < width
                invariant
                    self.printer_type == t,
                    self.width == width,
                    self.height == height,
                    self.carriage_return == cr,
                    w == width as nat,
                    frame == (Frame { colors: colors@, levels: levels@ }),
                    n_pixels == colors@.len(),
                    n_levels == levels@.len(),
                    0 <= i < height,
                    0 <= j <= width,
                    frame_fits(t, height as nat, w, frame),
                    cells_done(t, w, cr, frame, i as nat, j as nat) == (
                        self.buff@,
                        curr_fg,
                        curr_bg,
                    ),
                decreases width - j,
            {
                proof {
                    lemma_cell_in_frame(i as int, j as int, height as int, width as int);
                }
                match t {
                    PrinterType::Ascii => {
                        let level: usize = levels[i * width + j];
                        assert(level == cell_level(levels@, w, i as nat, j as nat));
                        let ch: u8 = ramp_byte(level);
                        self.buff.push(ch);
                    },
                    PrinterType::Color => {
                        let i_frame: usize = i * 2;
                        let first: Color = colors[i_frame * width + j];
                        let second: Color = colors[(i_frame + 1) * width + j];
                        assert(first == top_pixel(colors@, w, i as nat, j as nat));
                        assert(second == bottom_pixel(colors@, w, i as nat, j as nat));
                        if !same_color_exec(curr_fg, first) {
                            curr_fg = first;
                            push_color_code(&mut self.buff, 51u8, curr_fg);
                        }
                        if !same_color_exec(curr_bg, second) {
                            curr_bg = second;
                            push_color_code(&mut self.buff, 52u8, curr_bg);
                        }
                        push_half_block(&mut self.buff);
                    },
                }
                j = j + 1;
            }
            i = i + 1;
        }
    }
}

/// In color mode every cell `(i, j)` is drawn as an upper half block, with
/// pixel `j` of pixel row `2 i` as foreground and pixel `j` of pixel row
/// `2 i + 1` as background: after the cell, the current foreground is the
/// upper pixel or compares equal to it, and likewise for the background.
pub proof fn lemma_color_cell_is_pixel_pair(
    width: nat,
    carriage_return: bool,
    frame: Frame,
    i: nat,
    j: nat,
)
    requires
        j < width,
    ensures
        ({
            let st = cells_done(PrinterType::Color, width, carriage_return, frame, i, j + 1);
            let top = frame.colors[((2 * i) * width + j) as int];
            let bottom = frame.colors[((2 * i + 1) * width + j) as int];
            &&& st.1 == top || same_color(st.1, top)
            &&& st.2 == bottom || same_color(st.2, bottom)
            &&& st.0.len() >= 3
            &&& st.0.subrange(st.0.len() - 3, st.0.len() as int) == half_block()
        }),
{
    let st = cells_done(PrinterType::Color, width, carriage_return, frame, i, j + 1);
    let prev = cells_done(PrinterType::Color, width, carriage_return, frame, i, j);
    let top = top_pixel(frame.colors, width, i, j);
    let bottom = bottom_pixel(frame.colors, width, i, j);
    assert(st == cell_step(PrinterType::Color, width, frame, i, j, prev));
    let s1 = if !same_color(prev.1, top) {
        prev.0 + fg_code(top)
    } else {
        prev.0
    };
    let s2 = if !same_color(prev.2, bottom) {
        s1 + bg_code(bottom)
    } else {
        s1
    };
    assert(st.0 == s2 + half_block());
    assert(st.0.subrange(st.0.len() - 3, st.0.len() as int) =~= half_block());
}

/// In color mode the bytes of cell `(i, j)` are: the foreground code of pixel
/// `j` of pixel row `2 i` when it differs from the current foreground, the
/// background code of pixel `j` of pixel row `2 i + 1` when it differs from
/// the current background, and the upper half block.
pub proof fn lemma_color_cell_bytes(
    width: nat,
    carriage_return: bool,
    frame: Frame,
    i: nat,
    j: nat,
)
    requires
        j < width,
    ensures
        ({
            let prev = cells_done(PrinterType::Color, width, carriage_return, frame, i, j);
            let st = cells_done(PrinterType::Color, width, carriage_return, frame, i, j + 1);
            let top = frame.colors[((2 * i) * width + j) as int];
            let bottom = frame.colors[((2 * i + 1) * width + j) as int];
            st.0 == prev.0 + (if same_color(prev.1, top) {
                Seq::<u8>::empty()
            } else {
                fg_code(top)
            }) + (if same_color(prev.2, bottom) {
                Seq::<u8>::empty()
            } else {
                bg_code(bottom)
            }) + half_block()
        }),
{
    let prev = cells_done(PrinterType::Color, width, carriage_return, frame, i, j);
    let st = cells_done(PrinterType::Color, width, carriage_return, frame, i, j + 1);
    assert(st == cell_step(PrinterType::Color, width, frame, i, j, prev));
    let top = frame.colors[((2 * i) * width + j) as int];
    let bottom = frame.colors[((2 * i + 1) * width + j) as int];
    let e1 = if same_color(prev.1, top) {
        Seq::<u8>::empty()
    } else {
        fg_code(top)
    };
    let e2 = if same_color(prev.2, bottom) {
        Seq::<u8>::empty()
    } else {
        bg_code(bottom)
    };
    assert(prev.0 + e1 == if same_color(prev.1, top) {
        prev.0
    } else {
        prev.0 + fg_code(top)
    });
    assert((prev.0 + e1) + e2 == if same_color(prev.2, bottom) {
        prev.0 + e1
    } else {
        prev.0 + e1 + bg_code(bottom)
    });
}

/// In color mode pixel `j` of every pixel row `r` is drawn by cell
/// `(r / 2, j)`: as its foreground when `r` is even, as its background when
/// `r` is odd.
pub proof fn lemma_color_pixel_row_drawn(
    width: nat,
    carriage_return: bool,
    frame: Frame,
    r: nat,
    j: nat,
)
    requires
        j < width,
    ensures
        ({
            let st = cells_done(PrinterType::Color, width, carriage_return, frame, r / 2, j + 1);
            let pixel = frame.colors[(r * width + j) as int];
            &&& r % 2 == 0 ==> (st.1 == pixel || same_color(st.1, pixel))
            &&& r % 2 == 1 ==> (st.2 == pixel || same_color(st.2, pixel))
        }),
{
    let i = r / 2;
    lemma_color_cell_is_pixel_pair(width, carriage_return, frame, i, j);
    if r % 2 == 0 {
        assert((2 * i) * width + j == r * width + j) by (nonlinear_arith)
            requires
                r == 2 * i,
        ;
    } else {
        assert((2 * i + 1) * width + j == r * width + j) by (nonlinear_arith)
            requires
                r == 2 * i + 1,
        ;
    }
}

/// In ASCII mode cell `(i, j)` adds one byte: the character of the ramp at
/// the index `levels[i * width + j]`.
pub proof fn lemma_ascii_cell_byte(
    width: nat,
    carriage_return: bool,
    frame: Frame,
    i: nat,
    j: nat,
)
    requires
        j < width,
    ensures
        cells_done(PrinterType::Ascii, width, carriage_return, frame, i, j + 1).0 == cells_done(
            PrinterType::Ascii,
            width,
            carriage_return,
            frame,
            i,
            j,
        ).0.push(ramp()[frame.levels[(i * width + j) as int] as int]),
{
}

/// Every frame starts with the header: the start sequence and, in color
/// mode, black as the current colors.
pub proof fn lemma_frame_starts_with_header(
    t: PrinterType,
    width: nat,
    carriage_return: bool,
    frame: Frame,
    rows: nat,
)
    ensures
        header(t).is_prefix_of(rows_done(t, width, carriage_return, frame, rows).0),
    decreases rows, 0nat,
{
    if rows > 0 {
        lemma_cells_start_with_header(t, width, carriage_return, frame, (rows - 1) as nat, width);
    }
}

proof fn lemma_cells_start_with_header(
    t: PrinterType,
    width: nat,
    carriage_return: bool,
    frame: Frame,
    i: nat,
    j: nat,
)
    ensures
        header(t).is_prefix_of(cells_done(t, width, carriage_return, frame, i, j).0),
    decreases i, j + 1,
{
    let h = header(t);
    if j == 0 {
        lemma_frame_starts_with_header(t, width, carriage_return, frame, i);
        let prev = rows_done(t, width, carriage_return, frame, i).0;
        let cur = cells_done(t, width, carriage_return, frame, i, j).0;
        assert(cur == prev + line_break(carriage_return));
        assert forall|k: int| 0 <= k < h.len() implies h[k] == cur[k] by {
            assert(h[k] == prev[k]);
        }
    } else {
        let j1 = (j - 1) as nat;
        lemma_cells_start_with_header(t, width, carriage_return, frame, i, j1);
        let prev_st = cells_done(t, width, carriage_return, frame, i, j1);
        let prev = prev_st.0;
        let cur = cells_done(t, width, carriage_return, frame, i, j).0;
        assert(cells_done(t, width, carriage_return, frame, i, j) == cell_step(
            t,
            width,
            frame,
            i,
            j1,
            prev_st,
        ));
        assert(prev.is_prefix_of(cur)) by {
            match t {
                PrinterType::Ascii => {},
                PrinterType::Color => {
                    let top = top_pixel(frame.colors, width, i, j1);
                    let bottom = bottom_pixel(frame.colors, width, i, j1);
                    let s1 = if !same_color(prev_st.1, top) {
                        prev + fg_code(top)
                    } else {
                        prev
                    };
                    let s2 = if !same_color(prev_st.2, bottom) {
                        s1 + bg_code(bottom)
                    } else {
                        s1
                    };
                    assert(cur == s2 + half_block());
                    assert forall|k: int| 0 <= k < prev.len() implies prev[k] == cur[k] by {
                        assert(s1[k] == prev[k]);
                        assert(s2[k] == s1[k]);
                    }
                },
            }
        }
    }
}

/// In ASCII mode every cell is exactly one character: a frame of `rows`
/// rows of `width` cells is the start sequence, then per row a line break
/// and `width` characters.
pub proof fn lemma_ascii_frame_len(width: nat, carriage_return: bool, frame: Frame, rows: nat)
    ensures
        rows_done(PrinterType::Ascii, width, carriage_return, frame, rows).0.len() == 9 + rows * (
        line_break(carriage_return).len() + width),
    decreases rows, 0nat,
{
    let lb = line_break(carriage_return).len();
    if rows == 0 {
        assert(rows * (lb + width) == 0) by (nonlinear_arith)
            requires
                rows == 0,
        ;
    } else {
        let r1 = (rows - 1) as nat;
        lemma_ascii_row_len(width, carriage_return, frame, r1, width);
        assert(9 + rows * (lb + width) == 9 + r1 * (lb + width) + lb + width) by (nonlinear_arith)
            requires
                r1 + 1 == rows,
        ;
    }
}

proof fn lemma_ascii_row_len(width: nat, carriage_return: bool, frame: Frame, i: nat, j: nat)
    ensures
        cells_done(PrinterType::Ascii, width, carriage_return, frame, i, j).0.len() == 9 + i * (
        line_break(carriage_return).len() + width) + line_break(carriage_return).len() + j,
    decreases i, j + 1,
{
    if j == 0 {
        lemma_ascii_frame_len(width, carriage_return, frame, i);
    } else {
        lemma_ascii_row_len(width, carriage_return, frame, i, (j - 1) as nat);
    }
}

/// Printing the same frame twice in a row writes the same bytes: the
/// previous contents of the buffer play no part.
pub proof fn lemma_print_ignores_previous_buffer(p: Printer, q: Printer, frame: Frame)
    requires
        p.printer_type == q.printer_type,
        p.width == q.width,
        p.height == q.height,
        p.carriage_return == q.carriage_return,
    ensures
        p.printed(frame) == q.printed(frame),
{
}

} // verus!
