//! Model of the 80x25 VGA text-mode writer.
//!
//! The real screen is a fixed array of character cells at a fixed physical
//! address; scrolling and cursor movement are pure transformations of that
//! array. The `Writer` here owns the character grid as plain data, and every
//! operation's contract gives the new grid as a function of the old one, so
//! the unverified shell only has to copy the grid (or replay single writes)
//! into video memory.

use vstd::prelude::*;
use vstd::string::StringSliceAdditionalSpecFns;

verus! {

/// `n` copies of one byte.
pub open spec fn rep_byte(b: u8, n: nat) -> Seq<u8> {
    Seq::new(n, |i: int| b)
}

/// The byte sequence that centers `bs` on a row: spaces up to the column
/// where `bs` starts, then `bs` itself.
pub open spec fn centered_bytes(bs: Seq<u8>) -> Seq<u8> {
    rep_byte(32, (40 - bs.len() / 2) as nat) + bs
}

/// Number of character rows on the screen.
pub const BUFFER_HEIGHT: usize = 25;

/// Number of character columns on the screen.
pub const BUFFER_WIDTH: usize = 80;

/// Total number of character cells on the screen.
pub const BUFFER_AREA: usize = 2000;

/// The standard foreground and background VGA colors.
#[allow(dead_code)]
#[derive(Debug, Clone, Copy, PartialEq, Eq, Structural)]
pub enum Color {
    Black,
    Blue,
    Green,
    Cyan,
    Red,
    Magenta,
    Brown,
    LightGray,
    DarkGray,
    LightBlue,
    LightGreen,
    LightCyan,
    LightRed,
    Pink,
    Yellow,
    White,
}

/// The 4-bit hardware value of a color.
pub open spec fn spec_color_value(c: Color) -> u8 {
    match c {
        Color::Black => 0,
        Color::Blue => 1,
        Color::Green => 2,
        Color::Cyan => 3,
        Color::Red => 4,
        Color::Magenta => 5,
        Color::Brown => 6,
        Color::LightGray => 7,
        Color::DarkGray => 8,
        Color::LightBlue => 9,
        Color::LightGreen => 10,
        Color::LightCyan => 11,
        Color::LightRed => 12,
        Color::Pink => 13,
        Color::Yellow => 14,
        Color::White => 15,
    }
}

impl Color {
    /// The 4-bit hardware value of this color.
    pub fn value(self) -> (r: u8)
        ensures
            r == spec_color_value(self),
    {
        match self {
            Color::Black => 0,
            Color::Blue => 1,
            Color::Green => 2,
            Color::Cyan => 3,
            Color::Red => 4,
            Color::Magenta => 5,
            Color::Brown => 6,
            Color::LightGray => 7,
            Color::DarkGray => 8,
            Color::LightBlue => 9,
            Color::LightGreen => 10,
            Color::LightCyan => 11,
            Color::LightRed => 12,
            Color::Pink => 13,
            Color::Yellow => 14,
            Color::White => 15,
        }
    }
}

/// The one-byte VGA color attribute: background in the high nibble,
/// foreground in the low nibble.
#[derive(Debug, Clone, Copy, PartialEq, Eq, Structural)]
pub struct ColorCode(pub u8);

/// The attribute byte built from a foreground and a background color.
pub open spec fn spec_color_code(foreground: Color, background: Color) -> ColorCode {
    ColorCode((spec_color_value(background) << 4) | spec_color_value(foreground))
}

impl ColorCode {
    /// Pack a foreground and a background color into one attribute byte.
    pub fn new(foreground: Color, background: Color) -> (r: ColorCode)
        ensures
            r == spec_color_code(foreground, background),
    {
        ColorCode((background.value() << 4) | foreground.value())
    }
}

/// One character cell: a code-page-437 byte plus its color attribute.
#[derive(Debug, Clone, Copy, PartialEq, Eq, Structural)]
pub struct ScreenChar {
    pub ascii_character: u8,
    pub color_code: ColorCode,
}

/// A blank cell (a space) in the given color.
pub open spec fn blank_char(color: ColorCode) -> ScreenChar {
    ScreenChar { ascii_character: 32, color_code: color }
}

/// The screen contents: `BUFFER_AREA` cells in row-major order
/// (cell `(row, col)` lives at index `row * BUFFER_WIDTH + col`).
pub struct Buffer {
    pub chars: Vec<ScreenChar>,
}

/// The abstract state of a `Writer`: the grid of cells, the current column
/// in the bottom row, and the active color attribute.
#[verifier::ext_equal]
pub ghost struct WriterState {
    pub grid: Seq<ScreenChar>,
    pub col: int,
    pub color: ColorCode,
}

/// The grid after scrolling one line up: every row moves up by one and the
/// bottom row becomes blank in the given color.
pub open spec fn scrolled_up(g: Seq<ScreenChar>, color: ColorCode) -> Seq<ScreenChar> {
    Seq::new(2000, |i: int| if i < 1920 { g[i + 80] } else { blank_char(color) })
}

/// The grid with one row overwritten by blanks in the given color.
pub open spec fn row_cleared(g: Seq<ScreenChar>, row: int, color: ColorCode) -> Seq<ScreenChar> {
    Seq::new(2000, |i: int| if row * 80 <= i < row * 80 + 80 { blank_char(color) } else { g[i] })
}

/// The effect of writing one byte: a newline scrolls, any other byte lands
/// in the bottom row at the current column (after an implicit scroll when
/// the row is already full) and advances the column.
pub open spec fn state_write_byte(w: WriterState, b: u8) -> WriterState {
    if b == 10 {
        WriterState { grid: scrolled_up(w.grid, w.color), col: 0, color: w.color }
    } else {
        let g0 = if w.col >= 80 { scrolled_up(w.grid, w.color) } else { w.grid };
        let c0: int = if w.col >= 80 { 0 } else { w.col };
        WriterState {
            grid: g0.update(1920 + c0, ScreenChar { ascii_character: b, color_code: w.color }),
            col: c0 + 1,
            color: w.color,
        }
    }
}

/// The effect of writing a sequence of bytes, first byte first.
pub open spec fn state_write_bytes(w: WriterState, bs: Seq<u8>) -> WriterState
    decreases bs.len(),
{
    if bs.len() == 0 {
        w
    } else {
        state_write_bytes(state_write_byte(w, bs[0]), bs.drop_first())
    }
}

/// Writing `bs` is writing all but the last byte, then the last byte.
pub proof fn lemma_state_write_bytes_unsnoc(w: WriterState, bs: Seq<u8>)
    requires
        bs.len() > 0,
    ensures
        state_write_bytes(w, bs) == state_write_byte(
            state_write_bytes(w, bs.drop_last()),
            bs.last(),
        ),
    decreases bs.len(),
{
    if bs.len() == 1 {
        assert(bs.drop_last() =~= Seq::<u8>::empty());
        assert(bs.drop_first() =~= Seq::<u8>::empty());
        assert(state_write_bytes(w, bs) == state_write_bytes(
            state_write_byte(w, bs[0]),
            bs.drop_first(),
        ));
        assert(state_write_bytes(state_write_byte(w, bs[0]), bs.drop_first()) == state_write_byte(
            w,
            bs[0],
        ));
        assert(state_write_bytes(w, bs.drop_last()) == w);
        assert(bs.last() == bs[0]);
    } else {
        let w1 = state_write_byte(w, bs[0]);
        lemma_state_write_bytes_unsnoc(w1, bs.drop_first());
        assert(bs.drop_first().drop_last() =~= bs.drop_last().drop_first());
        assert(bs.drop_last()[0] == bs[0]);
        assert(state_write_bytes(w, bs.drop_last()) == state_write_bytes(
            w1,
            bs.drop_last().drop_first(),
        ));
        assert(bs.drop_first().last() == bs.last());
        assert(state_write_bytes(w, bs) == state_write_bytes(w1, bs.drop_first()));
    }
}

/// Writing `a + b` is writing `a`, then `b`.
pub proof fn lemma_state_write_bytes_append(w: WriterState, a: Seq<u8>, b: Seq<u8>)
    ensures
        state_write_bytes(w, a + b) == state_write_bytes(state_write_bytes(w, a), b),
    decreases a.len(),
{
    if a.len() == 0 {
        assert(a + b =~= b);
    } else {
        assert((a + b)[0] == a[0]);
        assert((a + b).drop_first() =~= a.drop_first() + b);
        lemma_state_write_bytes_append(state_write_byte(w, a[0]), a.drop_first(), b);
    }
}

/// The grid after a line is inserted above the screen: every row moves
/// down by one, and the new top row shows the bytes of the line followed
/// by blanks, all in the given color.
pub open spec fn line_inserted_top(g: Seq<ScreenChar>, bs: Seq<u8>, color: ColorCode) -> Seq<
    ScreenChar,
> {
    Seq::new(
        2000,
        |i: int|
            if i < bs.len() {
                ScreenChar { ascii_character: bs[i], color_code: color }
            } else if i < 80 {
                blank_char(color)
            } else {
                g[i - 80]
            },
    )
}

/// Writing `p` and then one more byte is writing `p + [b]`.
pub proof fn lemma_state_write_then_byte(w: WriterState, p: Seq<u8>, b: u8)
    ensures
        state_write_byte(state_write_bytes(w, p), b) == state_write_bytes(w, p + seq![b]),
{
    lemma_state_write_bytes_append(w, p, seq![b]);
    let w1 = state_write_bytes(w, p);
    assert(seq![b].drop_first() =~= Seq::<u8>::empty());
    assert(state_write_bytes(state_write_byte(w1, b), seq![b].drop_first()) == state_write_byte(
        w1,
        b,
    ));
}

/// Writing `p` and then `q` is writing `p + q`.
pub proof fn lemma_state_write_then_bytes(w: WriterState, p: Seq<u8>, q: Seq<u8>)
    ensures
        state_write_bytes(state_write_bytes(w, p), q) == state_write_bytes(w, p + q),
{
    lemma_state_write_bytes_append(w, p, q);
}

/// Writer for the VGA text grid: appends bytes in the bottom row and
/// scrolls the screen when a line is finished or overflows.
pub struct Writer {
    column_position: usize,
    color_code: ColorCode,
    buffer: Buffer,
}

impl View for Writer {
    type V = WriterState;

    closed spec fn view(&self) -> WriterState {
        WriterState {
            grid: self.buffer.chars@,
            col: self.column_position as int,
            color: self.color_code,
        }
    }
}

impl Writer {
    /// The grid has exactly one cell per screen position and the column
    /// never runs past the row width.
    pub closed spec fn wf(&self) -> bool {
        &&& self.buffer.chars@.len() == 2000
        &&& self.column_position <= 80
    }

    /// A writer over a blank screen in the given color, at column zero.
    pub fn new(color_code: ColorCode) -> (w: Writer)
        ensures
            w.wf(),
            w@.grid =~= Seq::new(2000, |i: int| blank_char(color_code)),
            w@.col == 0,
            w@.color == color_code,
    {
        let mut chars: Vec<ScreenChar> = Vec::new();
        let blank = ScreenChar { ascii_character: 32, color_code };
        let mut i: usize = 0;
        while i < BUFFER_AREA
            invariant
                i <= 2000,
                chars@.len() == i,
                blank == blank_char(color_code),
                forall|j: int| 0 <= j < i ==> chars@[j] == blank_char(color_code),
            decreases 2000 - i,
        {
            chars.push(blank);
            i = i + 1;
        }
        assert(chars@ =~= Seq::new(2000, |i: int| blank_char(color_code)));
        Writer { column_position: 0, color_code, buffer: Buffer { chars } }
    }

    /// The active color attribute.
    pub fn color_code(&self) -> (r: ColorCode)
        ensures
            r == self@.color,
    {
        self.color_code
    }

    /// Change the active color attribute; the grid and column are untouched.
    pub fn set_color_code(&mut self, color_code: ColorCode)
        ensures
            final(self)@ == (WriterState { color: color_code, ..old(self)@ }),
            final(self).wf() == old(self).wf(),
    {
        self.color_code = color_code;
    }

    /// The current column in the bottom row.
    pub fn column_position(&self) -> (r: usize)
        ensures
            r == self@.col,
    {
        self.column_position
    }

    /// The byte shown at a screen position.
    pub fn ascii_at(&self, row: usize, col: usize) -> (r: u8)
        requires
            self.wf(),
            row < 25,
            col < 80,
        ensures
            r == self@.grid[row * 80 + col].ascii_character,
    {
        self.buffer.chars[row * BUFFER_WIDTH + col].ascii_character
    }

    /// The color attribute shown at a screen position.
    pub fn color_at(&self, row: usize, col: usize) -> (r: ColorCode)
        requires
            self.wf(),
            row < 25,
            col < 80,
        ensures
            r == self@.grid[row * 80 + col].color_code,
    {
        self.buffer.chars[row * BUFFER_WIDTH + col].color_code
    }

    /// Overwrite one row with blanks in the active color.
    fn clear_row(&mut self, row: usize)
        requires
            old(self).wf(),
            row < 25,
        ensures
            final(self).wf(),
            final(self)@.grid == row_cleared(old(self)@.grid, row as int, old(self)@.color),
            final(self)@.col == old(self)@.col,
            final(self)@.color == old(self)@.color,
    {
        let blank = ScreenChar { ascii_character: 32, color_code: self.color_code };
        let mut col: usize = 0;
        while col < BUFFER_WIDTH
            invariant
                col <= 80,
                row < 25,
                self.buffer.chars@.len() == 2000,
                self.column_position == old(self).column_position,
                self.color_code == old(self).color_code,
                blank == blank_char(old(self)@.color),
                forall|i: int|
                    0 <= i < 2000 && !(row * 80 <= i < row * 80 + col) ==> self.buffer.chars@[i]
                        == old(self).buffer.chars@[i],
                forall|i: int|
                    row * 80 <= i < row * 80 + col ==> self.buffer.chars@[i] == blank_char(
                        old(self)@.color,
                    ),
            decreases 80 - col,
        {
            self.buffer.chars[row * BUFFER_WIDTH + col] = blank;
            col = col + 1;
        }
        assert(self.buffer.chars@ =~= row_cleared(old(self)@.grid, row as int, old(self)@.color));
    }

    /// Scroll the screen one line up and return to column zero.
    fn new_line(&mut self)
        requires
            old(self).wf(),
        ensures
            final(self).wf(),
            final(self)@ == (WriterState {
                grid: scrolled_up(old(self)@.grid, old(self)@.color),
                col: 0,
                color: old(self)@.color,
            }),
    {
        let mut i: usize = 0;
        while i < BUFFER_AREA - BUFFER_WIDTH
            invariant
                i <= 1920,
                self.buffer.chars@.len() == 2000,
                self.column_position == old(self).column_position,
                self.color_code == old(self).color_code,
                forall|j: int| 0 <= j < i ==> self.buffer.chars@[j] == old(self).buffer.chars@[j + 80],
                forall|j: int| i <= j < 2000 ==> self.buffer.chars@[j] == old(self).buffer.chars@[j],
            decreases 1920 - i,
        {
            let shifted = self.buffer.chars[i + BUFFER_WIDTH];
            self.buffer.chars[i] = shifted;
            i = i + 1;
        }
        self.clear_row(BUFFER_HEIGHT - 1);
        self.column_position = 0;
        proof {
            assert(self@.grid =~= scrolled_up(old(self)@.grid, old(self)@.color));
        }
    }

    /// Write one byte: newline scrolls, anything else is placed in the
    /// bottom row at the current column and the column advances.
    pub fn write_byte(&mut self, byte: u8)
        requires
            old(self).wf(),
        ensures
            final(self).wf(),
            final(self)@ == state_write_byte(old(self)@, byte),
    {
        if byte == 10 {
            self.new_line();
        } else {
            if self.column_position >= BUFFER_WIDTH {
                self.new_line();
            }
            let row = BUFFER_HEIGHT - 1;
            let col = self.column_position;
            let color_code = self.color_code;
            self.buffer.chars[row * BUFFER_WIDTH + col] = ScreenChar {
                ascii_character: byte,
                color_code,
            };
            self.column_position = self.column_position + 1;
        }
    }

    /// Insert a line above the screen: every row moves down by one, the
    /// line's bytes fill the left of the new top row (blanks after them),
    /// and the column returns to zero.
    pub fn pre_write_line(&mut self, s: &str)
        requires
            old(self).wf(),
            s.spec_bytes().len() <= 80,
        ensures
            final(self).wf(),
            final(self)@ == (WriterState {
                grid: line_inserted_top(old(self)@.grid, s.spec_bytes(), old(self)@.color),
                col: 0,
                color: old(self)@.color,
            }),
    {
        let mut i: usize = BUFFER_AREA;
        while i > BUFFER_WIDTH
            invariant
                80 <= i <= 2000,
                self.buffer.chars@.len() == 2000,
                self.column_position == old(self).column_position,
                self.column_position <= 80,
                self.color_code == old(self).color_code,
                forall|j: int|
                    i <= j < 2000 ==> self.buffer.chars@[j] == old(self).buffer.chars@[j - 80],
                forall|j: int| 0 <= j < i ==> self.buffer.chars@[j] == old(self).buffer.chars@[j],
            decreases i,
        {
            i = i - 1;
            let moved = self.buffer.chars[i - BUFFER_WIDTH];
            self.buffer.chars[i] = moved;
        }
        self.clear_row(0);
        let bytes = s.as_bytes();
        let color_code = self.color_code;
        let mut c: usize = 0;
        while c < bytes.len()
            invariant
                c <= bytes@.len() <= 80,
                bytes@ == s.spec_bytes(),
                color_code == old(self)@.color,
                self.buffer.chars@.len() == 2000,
                self.column_position == old(self).column_position,
                self.column_position <= 80,
                self.color_code == old(self).color_code,
                forall|j: int|
                    0 <= j < c ==> self.buffer.chars@[j] == (ScreenChar {
                        ascii_character: bytes@[j],
                        color_code: old(self)@.color,
                    }),
                forall|j: int|
                    c <= j < 80 ==> self.buffer.chars@[j] == blank_char(old(self)@.color),
                forall|j: int|
                    80 <= j < 2000 ==> self.buffer.chars@[j] == old(self).buffer.chars@[j - 80],
            decreases bytes@.len() - c,
        {
            self.buffer.chars[c] = ScreenChar { ascii_character: bytes[c], color_code };
            c = c + 1;
        }
        self.column_position = 0;
        assert(self@.grid =~= line_inserted_top(
            old(self)@.grid,
            s.spec_bytes(),
            old(self)@.color,
        ));
    }

    /// Write the same byte `n` times.
    pub fn write_repeated(&mut self, byte: u8, n: usize)
        requires
            old(self).wf(),
        ensures
            final(self).wf(),
            final(self)@ == state_write_bytes(old(self)@, rep_byte(byte, n as nat)),
    {
        let mut i: usize = 0;
        while i < n
            invariant
                i <= n,
                self.wf(),
                self@ == state_write_bytes(old(self)@, rep_byte(byte, i as nat)),
            decreases n - i,
        {
            self.write_byte(byte);
            proof {
                lemma_state_write_bytes_unsnoc(old(self)@, rep_byte(byte, (i + 1) as nat));
                assert(rep_byte(byte, (i + 1) as nat).drop_last() =~= rep_byte(byte, i as nat));
            }
            i = i + 1;
        }
    }

    /// Write a slice of bytes, first byte first.
    pub fn write_bytes(&mut self, bytes: &[u8])
        requires
            old(self).wf(),
        ensures
            final(self).wf(),
            final(self)@ == state_write_bytes(old(self)@, bytes@),
    {
        let mut i: usize = 0;
        while i < bytes.len()
            invariant
                i <= bytes@.len(),
                self.wf(),
                self@ == state_write_bytes(old(self)@, bytes@.subrange(0, i as int)),
            decreases bytes@.len() - i,
        {
            self.write_byte(bytes[i]);
            proof {
                lemma_state_write_bytes_unsnoc(old(self)@, bytes@.subrange(0, i + 1));
                assert(bytes@.subrange(0, i + 1).drop_last() =~= bytes@.subrange(0, i as int));
            }
            i = i + 1;
        }
        assert(bytes@.subrange(0, bytes@.len() as int) =~= bytes@);
    }

    /// Write the UTF-8 bytes of a string, first byte first.
    pub fn write_string(&mut self, s: &str)
        requires
            old(self).wf(),
        ensures
            final(self).wf(),
            final(self)@ == state_write_bytes(old(self)@, s.spec_bytes()),
    {
        self.write_bytes(s.as_bytes());
    }

    /// Overwrite every cell with a blank in the active color; the column
    /// and color are untouched.
    pub fn clear_screen(&mut self)
        requires
            old(self).wf(),
        ensures
            final(self).wf(),
            final(self)@.grid == Seq::new(2000, |i: int| blank_char(old(self)@.color)),
            final(self)@.col == old(self)@.col,
            final(self)@.color == old(self)@.color,
    {
        let blank = ScreenChar { ascii_character: 32, color_code: self.color_code };
        let mut i: usize = 0;
        while i < BUFFER_AREA
            invariant
                i <= 2000,
                self.buffer.chars@.len() == 2000,
                self.column_position == old(self).column_position,
                self.color_code == old(self).color_code,
                blank == blank_char(old(self)@.color),
                forall|j: int| 0 <= j < i ==> self.buffer.chars@[j] == blank_char(old(self)@.color),
                forall|j: int| i <= j < 2000 ==> self.buffer.chars@[j] == old(self).buffer.chars@[j],
            decreases 2000 - i,
        {
            self.buffer.chars[i] = blank;
            i = i + 1;
        }
        assert(self@.grid =~= Seq::new(2000, |i: int| blank_char(old(self)@.color)));
    }
}

/// The six bytes of the logo text (a code-page-437 smiley between the
/// two words).
pub open spec fn logo_text_bytes() -> Seq<u8> {
    seq![71u8, 114u8, 101u8, 103u8, 1u8, 83u8]
}

/// The bytes of the framed logo banner: a box of code-page-437 border
/// characters around the logo text, each line preceded by the padding
/// that centers the box, followed by three blank lines.
pub open spec fn logo_banner_bytes() -> Seq<u8> {
    rep_byte(32, 35) + seq![201u8] + rep_byte(205, 8) + seq![187u8] + seq![10u8] + rep_byte(32, 35)
        + seq![186u8] + rep_byte(32, 8) + seq![186u8] + seq![10u8] + rep_byte(32, 35) + seq![182u8]
        + seq![32u8] + logo_text_bytes() + seq![32u8] + seq![199u8] + seq![10u8] + rep_byte(32, 35)
        + seq![186u8] + rep_byte(32, 8) + seq![186u8] + seq![10u8] + rep_byte(32, 35) + seq![200u8]
        + rep_byte(205, 8) + seq![188u8] + seq![10u8] + rep_byte(32, 35) + rep_byte(10, 3)
}

/// The bytes of the prompt line under the logo.
pub open spec fn press_any_key_bytes() -> Seq<u8> {
    seq![
        60u8,
        32u8,
        80u8,
        114u8,
        101u8,
        115u8,
        115u8,
        32u8,
        97u8,
        110u8,
        121u8,
        32u8,
        107u8,
        101u8,
        121u8,
        32u8,
        116u8,
        111u8,
        32u8,
        99u8,
        111u8,
        110u8,
        116u8,
        105u8,
        110u8,
        117u8,
        101u8,
        32u8,
        62u8,
    ]
}

/// The writer state after the full logo screen is drawn: the banner in
/// light green, the centered prompt in yellow, nine blank lines, the
/// centered caption in magenta, and the color left at yellow.
pub open spec fn logo_applied(w: WriterState, caption: Seq<u8>) -> WriterState {
    let green = spec_color_code(Color::LightGreen, Color::Black);
    let yellow = spec_color_code(Color::Yellow, Color::Black);
    let magenta = spec_color_code(Color::Magenta, Color::Black);
    let w1 = state_write_bytes(WriterState { color: green, ..w }, logo_banner_bytes());
    let w2 = state_write_bytes(
        WriterState { color: yellow, ..w1 },
        centered_bytes(press_any_key_bytes()),
    );
    let w3 = state_write_bytes(w2, rep_byte(10, 9));
    let w4 = state_write_bytes(WriterState { color: magenta, ..w3 }, centered_bytes(caption));
    WriterState { color: yellow, ..w4 }
}

/// The logo text as a byte vector.
fn logo_text_vec() -> (v: Vec<u8>)
    ensures
        v@ == logo_text_bytes(),
{
    let mut v: Vec<u8> = Vec::new();
    v.push(71);
    v.push(114);
    v.push(101);
    v.push(103);
    v.push(1);
    v.push(83);
    assert(v@ =~= logo_text_bytes());
    v
}

/// The prompt line as a byte vector.
fn press_any_key_vec() -> (v: Vec<u8>)
    ensures
        v@ == press_any_key_bytes(),
{
    let mut v: Vec<u8> = Vec::new();
    v.push(60);
    v.push(32);
    v.push(80);
    v.push(114);
    v.push(101);
    v.push(115);
    v.push(115);
    v.push(32);
    v.push(97);
    v.push(110);
    v.push(121);
    v.push(32);
    v.push(107);
    v.push(101);
    v.push(121);
    v.push(32);
    v.push(116);
    v.push(111);
    v.push(32);
    v.push(99);
    v.push(111);
    v.push(110);
    v.push(116);
    v.push(105);
    v.push(110);
    v.push(117);
    v.push(101);
    v.push(32);
    v.push(62);
    assert(v@ =~= press_any_key_bytes());
    v
}

/// Draw the boot screen: the framed logo banner in light green, the
/// centered key prompt in yellow, and the centered caption (the clock
/// reading rendered by the caller) in magenta, leaving yellow active.
pub fn print_logo(w: &mut Writer, caption: &str)
    requires
        old(w).wf(),
        caption.spec_bytes().len() / 2 <= 40,
    ensures
        final(w).wf(),
        final(w)@ == logo_applied(old(w)@, caption.spec_bytes()),
{
    let s = logo_text_vec();
    let logo_width = s.len() + 4;
    let left_padding = BUFFER_WIDTH / 2 - logo_width / 2;
    w.set_color_code(ColorCode::new(Color::LightGreen, Color::Black));
    let ghost wb = w@;
    let ghost p: Seq<u8> = rep_byte(32, 35);
    // Top border.
    w.write_repeated(32, left_padding);
    w.write_byte(201);
    proof {
        lemma_state_write_then_byte(wb, p, 201);
        p = p + seq![201u8];
    }
    w.write_repeated(205, s.len() + 2);
    proof {
        lemma_state_write_then_bytes(wb, p, rep_byte(205, 8));
        p = p + rep_byte(205, 8);
    }
    w.write_byte(187);
    proof {
        lemma_state_write_then_byte(wb, p, 187);
        p = p + seq![187u8];
    }
    w.write_byte(10);
    proof {
        lemma_state_write_then_byte(wb, p, 10);
        p = p + seq![10u8];
    }
    // Upper margin.
    w.write_repeated(32, left_padding);
    proof {
        lemma_state_write_then_bytes(wb, p, rep_byte(32, 35));
        p = p + rep_byte(32, 35);
    }
    w.write_byte(186);
    proof {
        lemma_state_write_then_byte(wb, p, 186);
        p = p + seq![186u8];
    }
    w.write_repeated(32, s.len() + 2);
    proof {
        lemma_state_write_then_bytes(wb, p, rep_byte(32, 8));
        p = p + rep_byte(32, 8);
    }
    w.write_byte(186);
    proof {
        lemma_state_write_then_byte(wb, p, 186);
        p = p + seq![186u8];
    }
    w.write_byte(10);
    proof {
        lemma_state_write_then_byte(wb, p, 10);
        p = p + seq![10u8];
    }
    // Middle line with the logo text.
    w.write_repeated(32, left_padding);
    proof {
        lemma_state_write_then_bytes(wb, p, rep_byte(32, 35));
        p = p + rep_byte(32, 35);
    }
    w.write_byte(182);
    proof {
        lemma_state_write_then_byte(wb, p, 182);
        p = p + seq![182u8];
    }
    w.write_byte(32);
    proof {
        lemma_state_write_then_byte(wb, p, 32);
        p = p + seq![32u8];
    }
    w.write_bytes(s.as_slice());
    proof {
        lemma_state_write_then_bytes(wb, p, logo_text_bytes());
        p = p + logo_text_bytes();
    }
    w.write_byte(32);
    proof {
        lemma_state_write_then_byte(wb, p, 32);
        p = p + seq![32u8];
    }
    w.write_byte(199);
    proof {
        lemma_state_write_then_byte(wb, p, 199);
        p = p + seq![199u8];
    }
    w.write_byte(10);
    proof {
        lemma_state_write_then_byte(wb, p, 10);
        p = p + seq![10u8];
    }
    // Lower margin.
    w.write_repeated(32, left_padding);
    proof {
        lemma_state_write_then_bytes(wb, p, rep_byte(32, 35));
        p = p + rep_byte(32, 35);
    }
    w.write_byte(186);
    proof {
        lemma_state_write_then_byte(wb, p, 186);
        p = p + seq![186u8];
    }
    w.write_repeated(32, s.len() + 2);
    proof {
        lemma_state_write_then_bytes(wb, p, rep_byte(32, 8));
        p = p + rep_byte(32, 8);
    }
    w.write_byte(186);
    proof {
        lemma_state_write_then_byte(wb, p, 186);
        p = p + seq![186u8];
    }
    w.write_byte(10);
    proof {
        lemma_state_write_then_byte(wb, p, 10);
        p = p + seq![10u8];
    }
    // Bottom border.
    w.write_repeated(32, left_padding);
    proof {
        lemma_state_write_then_bytes(wb, p, rep_byte(32, 35));
        p = p + rep_byte(32, 35);
    }
    w.write_byte(200);
    proof {
        lemma_state_write_then_byte(wb, p, 200);
        p = p + seq![200u8];
    }
    w.write_repeated(205, s.len() + 2);
    proof {
        lemma_state_write_then_bytes(wb, p, rep_byte(205, 8));
        p = p + rep_byte(205, 8);
    }
    w.write_byte(188);
    proof {
        lemma_state_write_then_byte(wb, p, 188);
        p = p + seq![188u8];
    }
    w.write_byte(10);
    proof {
        lemma_state_write_then_byte(wb, p, 10);
        p = p + seq![10u8];
    }
    w.write_repeated(32, left_padding);
    proof {
        lemma_state_write_then_bytes(wb, p, rep_byte(32, 35));
        p = p + rep_byte(32, 35);
    }
    w.write_repeated(10, 3);
    proof {
        lemma_state_write_then_bytes(wb, p, rep_byte(10, 3));
        p = p + rep_byte(10, 3);
        assert(p == logo_banner_bytes());
    }
    // Centered prompt in yellow.
    w.set_color_code(ColorCode::new(Color::Yellow, Color::Black));
    let ghost wc = w@;
    let press = press_any_key_vec();
    let prompt_padding = BUFFER_WIDTH / 2 - press.len() / 2;
    w.write_repeated(32, prompt_padding);
    w.write_bytes(press.as_slice());
    proof {
        lemma_state_write_then_bytes(wc, rep_byte(32, 26), press_any_key_bytes());
        assert(press_any_key_bytes().len() == 29);
        assert(rep_byte(32, 26) + press_any_key_bytes() == centered_bytes(press_any_key_bytes()));
    }
    // Nine blank lines.
    w.write_repeated(10, 9);
    // Centered caption in magenta, then back to yellow.
    w.set_color_code(ColorCode::new(Color::Magenta, Color::Black));
    center(w, caption);
    w.set_color_code(ColorCode::new(Color::Yellow, Color::Black));
}

/// Write `s` centered on its row: pad with spaces up to the column where
/// the text starts, then write the text.
pub fn center(w: &mut Writer, s: &str)
    requires
        old(w).wf(),
        s.spec_bytes().len() / 2 <= 40,
    ensures
        final(w).wf(),
        final(w)@ == state_write_bytes(old(w)@, centered_bytes(s.spec_bytes())),
{
    let left_padding = BUFFER_WIDTH / 2 - s.len() / 2;
    w.write_repeated(32, left_padding);
    w.write_string(s);
    proof {
        lemma_state_write_bytes_append(
            old(w)@,
            rep_byte(32, left_padding as nat),
            s.spec_bytes(),
        );
    }
}

/// The two bytes of a hardware cursor position, low byte first; together
/// they encode the cell index `x + y * BUFFER_WIDTH`.
pub fn cursor_position_bytes(x: usize, y: usize) -> (r: (u8, u8))
    requires
        x < 80,
        y < 25,
    ensures
        r.0 as int + 256 * (r.1 as int) == x + y * 80,
{
    let position: u16 = (x + y * BUFFER_WIDTH) as u16;
    proof {
        let p = position;
        assert((p & 0xFF) < 256 && ((p >> 8) & 0xFF) < 256 && (p & 0xFF) + 256 * ((p >> 8)
            & 0xFF) == p) by (bit_vector);
    }
    let low = (position & 0xFF) as u8;
    let high = ((position >> 8) & 0xFF) as u8;
    (low, high)
}

/// The byte written to the cursor-start register when the cursor is turned
/// on: the preserved control bits of the previous value, with scanline 1.
pub fn cursor_start_byte(previous: u8) -> (r: u8)
    ensures
        r == (previous & 0xC0) | 1,
{
    (previous & 0xC0) | 1
}

/// The byte written to the cursor-end register when the cursor is turned
/// on: the preserved control bits of the previous value, with scanline 2.
pub fn cursor_end_byte(previous: u8) -> (r: u8)
    ensures
        r == (previous & 0xE0) | 2,
{
    (previous & 0xE0) | 2
}

} // verus!
