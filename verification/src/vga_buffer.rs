//! The text-mode console driver: color model, cell codec, and the writer that
//! owns the console surface.
//!
//! The writer appends at the bottom row of a fixed `BUFFER_HEIGHT` by
//! `BUFFER_WIDTH` grid. A line feed, or running past the last column, scrolls
//! every row up by one (the top row is discarded) and clears the bottom row.
//! Bytes outside the printable code-page-437 range are substituted with a
//! fixed placeholder glyph, so writing never fails, whatever the input.

use vstd::prelude::*;
use vstd::string::*;

use crate::surface::{surface_cells, Surface};

verus! {

/// Number of rows in the console grid.
pub const BUFFER_HEIGHT: usize = 25;

/// Number of columns in the console grid.
pub const BUFFER_WIDTH: usize = 80;

/// Total number of cells in the console grid.
pub const BUFFER_CELLS: usize = 2000;

/// The line feed byte, which triggers a scroll instead of being displayed.
pub const NEWLINE: u8 = 0x0a;

/// The placeholder glyph shown for bytes outside the printable range.
pub const SUBSTITUTE: u8 = 0xfe;

/// The character stored in a cleared cell.
pub const BLANK: u8 = 0x20;

/// One of the 16 fixed hardware colors: 8 base hues, each in a normal and a
/// bright variant (the bright bit is the high bit of the 4-bit value).
#[allow(dead_code)]
#[derive(Debug, Copy, Clone, Eq, PartialEq, Structural)]
pub enum Color {
    Black,
    Blue,
    Green,
    Cyan,
    Red,
    Magenta,
    Brown,
    LightGray,
    DarkGray,
    LightBlue,
    LightGreen,
    LightCyan,
    LightRed,
    Pink,
    Yellow,
    White,
}

/// The 4-bit hardware value of each color.
pub open spec fn spec_color_num(c: Color) -> u8 {
    match c {
        Color::Black => 0,
        Color::Blue => 1,
        Color::Green => 2,
        Color::Cyan => 3,
        Color::Red => 4,
        Color::Magenta => 5,
        Color::Brown => 6,
        Color::LightGray => 7,
        Color::DarkGray => 8,
        Color::LightBlue => 9,
        Color::LightGreen => 10,
        Color::LightCyan => 11,
        Color::LightRed => 12,
        Color::Pink => 13,
        Color::Yellow => 14,
        Color::White => 15,
    }
}

impl Color {
    /// The 4-bit hardware value of this color.
    pub fn value(self) -> (v: u8)
        ensures
            v == spec_color_num(self),
            v < 16,
    {
        match self {
            Color::Black => 0,
            Color::Blue => 1,
            Color::Green => 2,
            Color::Cyan => 3,
            Color::Red => 4,
            Color::Magenta => 5,
            Color::Brown => 6,
            Color::LightGray => 7,
            Color::DarkGray => 8,
            Color::LightBlue => 9,
            Color::LightGreen => 10,
            Color::LightCyan => 11,
            Color::LightRed => 12,
            Color::Pink => 13,
            Color::Yellow => 14,
            Color::White => 15,
        }
    }
}

/// The packed foreground/background color byte: bits 0–3 hold the foreground
/// color, bits 4–7 the background color. It is built only from a color pair;
/// the raw byte leaves this module only inside an encoded cell.
#[derive(Debug, Copy, Clone, Eq, PartialEq, Structural)]
pub struct ColorCode(u8);

impl ColorCode {
    /// The packed byte this code stands for.
    pub closed spec fn spec_byte(self) -> u8 {
        self.0
    }

    /// Packs a foreground and a background color into one byte.
    pub fn new(foreground: Color, background: Color) -> (r: ColorCode)
        ensures
            r.spec_byte() == ((spec_color_num(background) << 4) | spec_color_num(foreground)),
    {
        ColorCode((background.value() << 4) | foreground.value())
    }

    /// The packed byte, for encoding into a hardware cell.
    pub(crate) fn byte(self) -> (v: u8)
        ensures
            v == self.spec_byte(),
    {
        self.0
    }
}

/// The packed byte keeps both halves of the pair: the low four bits are the
/// foreground and the high four bits are the background.
pub proof fn lemma_color_code_packs_pair(foreground: Color, background: Color)
    ensures
        ((spec_color_num(background) << 4) | spec_color_num(foreground)) & 0x0f
            == spec_color_num(foreground),
        ((spec_color_num(background) << 4) | spec_color_num(foreground)) >> 4
            == spec_color_num(background),
{
    let f = spec_color_num(foreground);
    let b = spec_color_num(background);
    assert(f < 16 && b < 16) by {
        match foreground {
            Color::Black => {},
            Color::Blue => {},
            Color::Green => {},
            Color::Cyan => {},
            Color::Red => {},
            Color::Magenta => {},
            Color::Brown => {},
            Color::LightGray => {},
            Color::DarkGray => {},
            Color::LightBlue => {},
            Color::LightGreen => {},
            Color::LightCyan => {},
            Color::LightRed => {},
            Color::Pink => {},
            Color::Yellow => {},
            Color::White => {},
        }
    }
    assert(f < 16 && b < 16 ==> (((b << 4) | f) & 0x0f) == f && (((b << 4) | f) >> 4) == b)
        by (bit_vector);
}

/// A displayable character together with its color: what one hardware cell
/// shows.
#[derive(Debug, Copy, Clone, Eq, PartialEq, Structural)]
pub struct ScreenChar {
    pub character: u8,
    pub color_code: ColorCode,
}

impl ScreenChar {
    /// The exact 2-byte hardware layout of this cell: byte 0 is the character
    /// code, byte 1 the color code. The order is fixed by the hardware.
    pub open spec fn spec_cell(self) -> (u8, u8) {
        (self.character, self.color_code.spec_byte())
    }

    /// Packs this character into the 2-byte hardware cell layout.
    pub fn encode(self) -> (r: (u8, u8))
        ensures
            r == self.spec_cell(),
    {
        (self.character, self.color_code.byte())
    }

    /// Reads a 2-byte hardware cell back into its character and color.
    pub fn decode(cell: (u8, u8)) -> (r: ScreenChar)
        ensures
            r.spec_cell() == cell,
            r.character == cell.0,
            r.color_code.spec_byte() == cell.1,
    {
        ScreenChar { character: cell.0, color_code: ColorCode(cell.1) }
    }
}

/// Whether a byte lies in the printable code-page-437 range.
pub open spec fn printable(b: u8) -> bool {
    0x20 <= b <= 0x7e
}

/// What a requested byte becomes on screen: printable bytes and the line feed
/// pass through, everything else becomes the placeholder glyph.
pub open spec fn spec_render(b: u8) -> u8 {
    if printable(b) || b == NEWLINE {
        b
    } else {
        SUBSTITUTE
    }
}

/// The cell a clear writes: a blank character under the given color.
pub open spec fn spec_blank(color: u8) -> (u8, u8) {
    (BLANK, color)
}

/// A whole grid of blank cells: the empty console.
pub open spec fn spec_blank_grid(color: u8) -> Seq<(u8, u8)> {
    Seq::new(BUFFER_CELLS as nat, |i: int| spec_blank(color))
}

/// The flat, row-major position of a cell.
pub open spec fn spec_index(row: int, col: int) -> int {
    row * (BUFFER_WIDTH as int) + col
}

/// The grid after a scroll: every cell takes the value one row below it, and
/// the bottom row is cleared to blanks under the given color.
pub open spec fn spec_scroll(g: Seq<(u8, u8)>, color: u8) -> Seq<(u8, u8)> {
    Seq::new(
        g.len(),
        |i: int| if i + (BUFFER_WIDTH as int) < g.len() {
            g[i + (BUFFER_WIDTH as int)]
        } else {
            spec_blank(color)
        },
    )
}

/// One step of the writer: the grid and column after writing one byte with
/// the given color. A line feed scrolls; a full line scrolls first; otherwise
/// the byte lands at the cursor on the bottom row and the column advances.
pub open spec fn spec_write_byte(g: Seq<(u8, u8)>, col: int, color: u8, b: u8) -> (
    Seq<(u8, u8)>,
    int,
) {
    if b == NEWLINE {
        (spec_scroll(g, color), 0)
    } else if col >= BUFFER_WIDTH as int {
        (
            spec_scroll(g, color).update(
                spec_index(BUFFER_HEIGHT as int - 1, 0),
                (b, color),
            ),
            1,
        )
    } else {
        (g.update(spec_index(BUFFER_HEIGHT as int - 1, col), (b, color)), col + 1)
    }
}

/// The grid and column after writing a whole byte sequence, each byte first
/// rendered through the substitution rule.
pub open spec fn spec_write_bytes(g: Seq<(u8, u8)>, col: int, color: u8, bs: Seq<u8>) -> (
    Seq<(u8, u8)>,
    int,
)
    decreases bs.len(),
{
    if bs.len() == 0 {
        (g, col)
    } else {
        let step = spec_write_byte(g, col, color, spec_render(bs[0]));
        spec_write_bytes(step.0, step.1, color, bs.subrange(1, bs.len() as int))
    }
}

/// Owns the cursor state and the console surface. Writes go to the bottom
/// row; the grid scrolls on line feed or overflow.
pub struct Writer {
    column_position: usize,
    color_code: ColorCode,
    buffer: Surface,
}

impl Writer {
    /// The cells of the surface this writer owns, in row-major order.
    pub closed spec fn grid(&self) -> Seq<(u8, u8)> {
        surface_cells(self.buffer)
    }

    /// The column the next byte lands in.
    pub closed spec fn col(&self) -> int {
        self.column_position as int
    }

    /// The packed byte of the writer's current color.
    pub closed spec fn color(&self) -> u8 {
        self.color_code.spec_byte()
    }

    /// A writer is well formed when its surface holds the whole grid and the
    /// cursor has not left the line.
    pub open spec fn wf(&self) -> bool {
        self.grid().len() == BUFFER_CELLS as int && 0 <= self.col() <= BUFFER_WIDTH as int
    }

    /// Builds a writer over a freshly blanked surface, cursor at column 0.
    pub fn new(color_code: ColorCode) -> (w: Writer)
        ensures
            w.wf(),
            w.col() == 0,
            w.color() == color_code.spec_byte(),
            w.grid() == spec_blank_grid(color_code.spec_byte()),
    {
        let mut surface = Surface::empty();
        let blank: (u8, u8) = (BLANK, color_code.byte());
        let mut i: usize = 0;
        while i < BUFFER_CELLS
            invariant
                i <= BUFFER_CELLS,
                blank == spec_blank(color_code.spec_byte()),
                surface_cells(surface) == Seq::new(i as nat, |j: int| spec_blank(
                    color_code.spec_byte(),
                )),
            decreases BUFFER_CELLS - i,
        {
            surface.push(blank);
            i = i + 1;
            proof {
                assert(surface_cells(surface) =~= Seq::new(i as nat, |j: int| spec_blank(
                    color_code.spec_byte(),
                )));
            }
        }
        Writer { column_position: 0, color_code, buffer: surface }
    }

    /// Overwrites every cell of the given row with the blank character under
    /// the writer's current color.
    fn clear_row(&mut self, row: usize)
        requires
            old(self).wf(),
            row < BUFFER_HEIGHT,
        ensures
            final(self).wf(),
            final(self).col() == old(self).col(),
            final(self).color() == old(self).color(),
            final(self).grid().len() == old(self).grid().len(),
            forall|j: int|
                0 <= j < BUFFER_CELLS as int ==> final(self).grid()[j] == (
                if spec_index(row as int, 0) <= j < spec_index(row as int, 0) + BUFFER_WIDTH as int {
                    spec_blank(old(self).color())
                } else {
                    old(self).grid()[j]
                }),
    {
        let blank: (u8, u8) = (BLANK, self.color_code.byte());
        let base = row * BUFFER_WIDTH;
        let mut col: usize = 0;
        while col < BUFFER_WIDTH
            invariant
                old(self).wf(),
                row < BUFFER_HEIGHT,
                col <= BUFFER_WIDTH,
                base == row * BUFFER_WIDTH,
                self.column_position == old(self).column_position,
                self.color_code == old(self).color_code,
                blank == spec_blank(old(self).color()),
                self.grid().len() == old(self).grid().len(),
                forall|j: int|
                    0 <= j < BUFFER_CELLS as int ==> self.grid()[j] == (
                    if base as int <= j < base as int + col as int {
                        spec_blank(old(self).color())
                    } else {
                        old(self).grid()[j]
                    }),
            decreases BUFFER_WIDTH - col,
        {
            self.buffer.write(base + col, blank);
            col = col + 1;
        }
    }

    /// Scrolls: copies every row onto the row above it (the top row is
    /// discarded), clears the bottom row, and returns the cursor to column 0.
    pub fn new_line(&mut self)
        requires
            old(self).wf(),
        ensures
            final(self).wf(),
            final(self).color() == old(self).color(),
            final(self).grid() == spec_scroll(old(self).grid(), old(self).color()),
            final(self).col() == 0,
    {
        let mut i: usize = 0;
        while i < BUFFER_CELLS - BUFFER_WIDTH
            invariant
                old(self).wf(),
                i <= BUFFER_CELLS - BUFFER_WIDTH,
                self.column_position == old(self).column_position,
                self.color_code == old(self).color_code,
                self.grid().len() == old(self).grid().len(),
                forall|j: int|
                    0 <= j < i as int ==> self.grid()[j] == old(self).grid()[j
                        + BUFFER_WIDTH as int],
                forall|j: int|
                    i as int <= j < BUFFER_CELLS as int ==> self.grid()[j] == old(self).grid()[j],
            decreases BUFFER_CELLS - BUFFER_WIDTH - i,
        {
            let moved = self.buffer.read(i + BUFFER_WIDTH);
            self.buffer.write(i, moved);
            i = i + 1;
        }
        self.clear_row(BUFFER_HEIGHT - 1);
        self.column_position = 0;
        proof {
            assert(self.grid() =~= spec_scroll(old(self).grid(), old(self).color()));
        }
    }

    /// Writes one byte verbatim. A line feed scrolls; a full line scrolls
    /// first; otherwise the byte lands at the cursor with the current color
    /// through exactly one volatile cell write, and the column advances.
    pub fn write_byte(&mut self, byte: u8)
        requires
            old(self).wf(),
        ensures
            final(self).wf(),
            final(self).color() == old(self).color(),
            final(self).grid() == spec_write_byte(
                old(self).grid(),
                old(self).col(),
                old(self).color(),
                byte,
            ).0,
            final(self).col() == spec_write_byte(
                old(self).grid(),
                old(self).col(),
                old(self).color(),
                byte,
            ).1,
    {
        if byte == NEWLINE {
            self.new_line();
        } else {
            if self.column_position >= BUFFER_WIDTH {
                self.new_line();
            }
            let row = BUFFER_HEIGHT - 1;
            let col = self.column_position;
            let cell = ScreenChar { character: byte, color_code: self.color_code };
            self.buffer.write(row * BUFFER_WIDTH + col, cell.encode());
            self.column_position = col + 1;
        }
    }

    /// Writes a string byte by byte. Bytes in the printable code-page-437
    /// range and the line feed pass through; every other byte is written as
    /// the placeholder glyph, so the call succeeds whatever the input.
    pub fn write_string(&mut self, s: &str)
        requires
            old(self).wf(),
        ensures
            final(self).wf(),
            final(self).color() == old(self).color(),
            final(self).grid() == spec_write_bytes(
                old(self).grid(),
                old(self).col(),
                old(self).color(),
                s.spec_bytes(),
            ).0,
            final(self).col() == spec_write_bytes(
                old(self).grid(),
                old(self).col(),
                old(self).color(),
                s.spec_bytes(),
            ).1,
    {
        let bytes = s.as_bytes();
        let n = bytes.len();
        let mut i: usize = 0;
        while i < n
            invariant
                old(self).wf(),
                self.wf(),
                i <= n,
                n == bytes@.len(),
                bytes@ == s.spec_bytes(),
                self.color() == old(self).color(),
                self.grid() == spec_write_bytes(
                    old(self).grid(),
                    old(self).col(),
                    old(self).color(),
                    bytes@.take(i as int),
                ).0,
                self.col() == spec_write_bytes(
                    old(self).grid(),
                    old(self).col(),
                    old(self).color(),
                    bytes@.take(i as int),
                ).1,
            decreases n - i,
        {
            let b = bytes[i];
            let shown: u8 = if (0x20 <= b && b <= 0x7e) || b == NEWLINE {
                b
            } else {
                SUBSTITUTE
            };
            proof {
                assert(shown == spec_render(bytes@[i as int]));
                lemma_write_bytes_snoc(
                    old(self).grid(),
                    old(self).col(),
                    old(self).color(),
                    bytes@.take(i as int),
                    bytes@[i as int],
                );
                assert(bytes@.take(i as int).push(bytes@[i as int]) =~= bytes@.take(i as int + 1));
            }
            self.write_byte(shown);
            i = i + 1;
        }
        proof {
            assert(bytes@.take(n as int) =~= bytes@);
        }
    }

    /// Reads back the cell at the given row and column, decoded.
    pub fn read_cell(&self, row: usize, col: usize) -> (r: ScreenChar)
        requires
            self.wf(),
            row < BUFFER_HEIGHT,
            col < BUFFER_WIDTH,
        ensures
            r.spec_cell() == self.grid()[spec_index(row as int, col as int)],
    {
        let raw = self.buffer.read(row * BUFFER_WIDTH + col);
        ScreenChar::decode(raw)
    }

    /// Changes the color used for the cells written from now on. No cell of
    /// the grid is touched.
    pub fn set_color(&mut self, color_code: ColorCode)
        ensures
            final(self).grid() == old(self).grid(),
            final(self).col() == old(self).col(),
            final(self).color() == color_code.spec_byte(),
    {
        self.color_code = color_code;
    }

    /// The column the next byte lands in.
    pub fn column(&self) -> (c: usize)
        ensures
            c as int == self.col(),
    {
        self.column_position
    }
}

/// Writing the bytes `bs` and then one more byte is the same as writing `bs`
/// and then taking a single step with the rendered extra byte.
pub proof fn lemma_write_bytes_snoc(g: Seq<(u8, u8)>, col: int, color: u8, bs: Seq<u8>, b: u8)
    ensures
        spec_write_bytes(g, col, color, bs.push(b)) == ({
            let mid = spec_write_bytes(g, col, color, bs);
            spec_write_byte(mid.0, mid.1, color, spec_render(b))
        }),
    decreases bs.len(),
{
    let whole = bs.push(b);
    if bs.len() == 0 {
        assert(whole[0] == b);
        let step = spec_write_byte(g, col, color, spec_render(b));
        assert(spec_write_bytes(g, col, color, whole) == spec_write_bytes(
            step.0,
            step.1,
            color,
            whole.subrange(1, whole.len() as int),
        ));
        assert(whole.subrange(1, whole.len() as int) =~= Seq::<u8>::empty());
        assert(spec_write_bytes(step.0, step.1, color, Seq::<u8>::empty()) == (step.0, step.1));
        assert(spec_write_bytes(g, col, color, bs) == (g, col));
    } else {
        assert(whole[0] == bs[0]);
        let step = spec_write_byte(g, col, color, spec_render(bs[0]));
        assert(spec_write_bytes(g, col, color, whole) == spec_write_bytes(
            step.0,
            step.1,
            color,
            whole.subrange(1, whole.len() as int),
        ));
        assert(whole.subrange(1, whole.len() as int) =~= bs.subrange(1, bs.len() as int).push(b));
        lemma_write_bytes_snoc(step.0, step.1, color, bs.subrange(1, bs.len() as int), b);
        assert(spec_write_bytes(g, col, color, bs) == spec_write_bytes(
            step.0,
            step.1,
            color,
            bs.subrange(1, bs.len() as int),
        ));
    }
}

/// Formatted output funnels here once rendered to text: it delegates byte by
/// byte to `write_string` and always succeeds, since the sink never reports
/// backpressure.
pub fn _print(writer: &mut Writer, s: &str)
    requires
        old(writer).wf(),
    ensures
        final(writer).wf(),
        final(writer).color() == old(writer).color(),
        final(writer).grid() == spec_write_bytes(
            old(writer).grid(),
            old(writer).col(),
            old(writer).color(),
            s.spec_bytes(),
        ).0,
        final(writer).col() == spec_write_bytes(
            old(writer).grid(),
            old(writer).col(),
            old(writer).color(),
            s.spec_bytes(),
        ).1,
{
    writer.write_string(s);
}

} // verus!
