//! The text-output driver: a cursor/color state machine over a fixed
//! 25 x 80 grid of character cells.
//!
//! The grid is held here as plain values; the binary that owns the real
//! device memory mirrors every store. The abstract state of a writer is
//! [`WState`], and every mutating operation is pinned to a spec-level
//! transition function on that state.

use vstd::prelude::*;

verus! {

/// Number of text rows on the screen.
pub const BUFFER_HEIGHT: usize = 25;

/// Number of text columns on the screen.
pub const BUFFER_WIDTH: usize = 80;

/// Total number of cells in the grid, in row-major order.
pub const GRID_CELLS: usize = BUFFER_HEIGHT * BUFFER_WIDTH;

/// The sixteen colors of the fixed text-mode palette.
#[derive(Clone, Copy, Debug, PartialEq, Eq, Structural)]
pub enum Color {
    Black,
    Blue,
    Green,
    Cyan,
    Red,
    Magenta,
    Brown,
    LightGray,
    DarkGray,
    LightBlue,
    LightGreen,
    LightCyan,
    LightRed,
    Pink,
    Yellow,
    White,
}

/// The palette index of a color, as the hardware numbers them.
pub open spec fn color_index(c: Color) -> u8 {
    match c {
        Color::Black => 0,
        Color::Blue => 1,
        Color::Green => 2,
        Color::Cyan => 3,
        Color::Red => 4,
        Color::Magenta => 5,
        Color::Brown => 6,
        Color::LightGray => 7,
        Color::DarkGray => 8,
        Color::LightBlue => 9,
        Color::LightGreen => 10,
        Color::LightCyan => 11,
        Color::LightRed => 12,
        Color::Pink => 13,
        Color::Yellow => 14,
        Color::White => 15,
    }
}

impl Color {
    /// The palette index of this color.
    pub fn index(self) -> (r: u8)
        ensures
            r == color_index(self),
            r < 16,
    {
        match self {
            Color::Black => 0,
            Color::Blue => 1,
            Color::Green => 2,
            Color::Cyan => 3,
            Color::Red => 4,
            Color::Magenta => 5,
            Color::Brown => 6,
            Color::LightGray => 7,
            Color::DarkGray => 8,
            Color::LightBlue => 9,
            Color::LightGreen => 10,
            Color::LightCyan => 11,
            Color::LightRed => 12,
            Color::Pink => 13,
            Color::Yellow => 14,
            Color::White => 15,
        }
    }
}

/// A packed attribute byte: foreground palette index in the low four
/// bits, background index in the next three (bit 7 is the reserved
/// blink bit, always zero here).
#[derive(Clone, Copy, Debug, PartialEq, Eq, Structural)]
pub struct ColorCode(pub u8);

impl ColorCode {
    /// Packs a foreground and a background color into one attribute byte.
    pub fn new(foreground: Color, background: Color) -> (r: ColorCode)
        ensures
            r.0 == color_index(background) * 16 + color_index(foreground),
    {
        let fg: u8 = foreground.index();
        let bg: u8 = background.index();
        ColorCode(bg * 16 + fg)
    }
}

/// One cell of the grid: an ASCII byte paired with its attribute byte.
/// The pair is always stored as a unit; no operation ever writes one
/// half without the other.
#[derive(Clone, Copy, Debug, PartialEq, Eq, Structural)]
pub struct ScreenChar {
    pub ascii_char: u8,
    pub color_code: ColorCode,
}

/// The blank cell a scroll leaves behind: a space in the given color.
pub open spec fn blank_cell(color: ColorCode) -> ScreenChar {
    ScreenChar { ascii_char: 32u8, color_code: color }
}

/// The abstract state of a writer: the grid in row-major order, the
/// cursor column, and the current color attribute.
pub ghost struct WState {
    pub grid: Seq<ScreenChar>,
    pub col: int,
    pub color: ColorCode,
}

/// A well-formed writer state: a full grid and a cursor that is at most
/// one past the last column (it rests there after the last column of a
/// row is filled, until the next byte forces a scroll).
pub open spec fn wstate_wf(s: WState) -> bool {
    &&& s.grid.len() == GRID_CELLS
    &&& 0 <= s.col <= BUFFER_WIDTH
}

/// The grid after one scroll: every row moves up one position, the last
/// row becomes blank cells in the given color.
pub open spec fn scrolled(g: Seq<ScreenChar>, color: ColorCode) -> Seq<ScreenChar> {
    Seq::new(g.len(), |i: int|
        if i < g.len() - BUFFER_WIDTH {
            g[i + BUFFER_WIDTH]
        } else {
            blank_cell(color)
        })
}

/// The newline byte.
pub const NEWLINE: u8 = 10;

/// The index of the cell at (row, col).
pub open spec fn cell_index(row: int, col: int) -> int {
    row * BUFFER_WIDTH + col
}

/// What one `write_byte` call does to the abstract state: a newline
/// scrolls; any other byte first scrolls if the cursor is past the last
/// column, then lands in the bottom row at the cursor, paired with the
/// current color, and the cursor advances.
pub open spec fn write_byte_s(s: WState, b: u8) -> WState {
    if b == NEWLINE {
        WState { grid: scrolled(s.grid, s.color), col: 0, color: s.color }
    } else {
        let g0 = if s.col >= BUFFER_WIDTH { scrolled(s.grid, s.color) } else { s.grid };
        let c0: int = if s.col >= BUFFER_WIDTH { 0 } else { s.col };
        WState {
            grid: g0.update(
                cell_index(BUFFER_HEIGHT - 1, c0),
                ScreenChar { ascii_char: b, color_code: s.color },
            ),
            col: c0 + 1,
            color: s.color,
        }
    }
}

/// A byte the driver forwards unchanged: the printable ASCII range.
pub open spec fn printable(b: u8) -> bool {
    0x20 <= b <= 0x7e
}

/// The placeholder glyph stored in place of a byte that is neither
/// printable nor a newline.
pub const PLACEHOLDER: u8 = 0xfe;

/// What `write_string` forwards for one input byte: printable bytes and
/// newlines pass, everything else degrades to the placeholder glyph.
pub open spec fn sanitize(b: u8) -> u8 {
    if printable(b) || b == NEWLINE {
        b
    } else {
        PLACEHOLDER
    }
}

/// What writing a whole byte sequence does to the abstract state:
/// each byte is sanitized and then written in order.
pub open spec fn write_seq_s(s: WState, bytes: Seq<u8>) -> WState
    decreases bytes.len(),
{
    if bytes.len() == 0 {
        s
    } else {
        write_seq_s(write_byte_s(s, sanitize(bytes[0])), bytes.skip(1))
    }
}

/// The text-output driver's state: cursor column, current color, and
/// the grid contents in row-major order.
pub struct Writer {
    column_position: usize,
    color_code: ColorCode,
    buffer: Vec<ScreenChar>,
}

impl View for Writer {
    type V = WState;

    closed spec fn view(&self) -> WState {
        WState {
            grid: self.buffer@,
            col: self.column_position as int,
            color: self.color_code,
        }
    }
}

impl Writer {
    /// The writer's internal invariant.
    pub open spec fn wf(self) -> bool {
        wstate_wf(self@)
    }

    /// A fresh writer: cursor at column zero, the given colors, and a
    /// grid of blank cells in those colors.
    pub fn new(foreground: Color, background: Color) -> (w: Writer)
        ensures
            w.wf(),
            w@.col == 0,
            w@.color == (ColorCode(
                (color_index(background) * 16 + color_index(foreground)) as u8,
            )),
            forall|i: int| 0 <= i < GRID_CELLS ==> w@.grid[i] == blank_cell(w@.color),
    {
        let color_code = ColorCode::new(foreground, background);
        let mut buffer: Vec<ScreenChar> = Vec::new();
        let mut i: usize = 0;
        while i < GRID_CELLS
            invariant
                i <= GRID_CELLS,
                buffer@.len() == i,
                forall|j: int| 0 <= j < i ==> buffer@[j] == blank_cell(color_code),
            decreases GRID_CELLS - i,
        {
            buffer.push(ScreenChar { ascii_char: 32, color_code });
            i += 1;
        }
        Writer { column_position: 0, color_code, buffer }
    }

    /// Clears one row to blank cells in the current color; every other
    /// cell, the cursor and the color are untouched.
    fn clear_row(&mut self, row: usize)
        requires
            old(self).wf(),
            row < BUFFER_HEIGHT,
        ensures
            final(self).wf(),
            final(self)@.col == old(self)@.col,
            final(self)@.color == old(self)@.color,
            forall|i: int|
                cell_index(row as int, 0) <= i < cell_index(row as int, BUFFER_WIDTH as int)
                    ==> final(self)@.grid[i] == blank_cell(old(self)@.color),
            forall|i: int|
                0 <= i < GRID_CELLS && !(cell_index(row as int, 0) <= i < cell_index(
                    row as int,
                    BUFFER_WIDTH as int,
                )) ==> final(self)@.grid[i] == old(self)@.grid[i],
    {
        let ghost s0 = self@;
        let blank = ScreenChar { ascii_char: 32, color_code: self.color_code };
        let mut col: usize = 0;
        while col < BUFFER_WIDTH
            invariant
                col <= BUFFER_WIDTH,
                row < BUFFER_HEIGHT,
                self.buffer@.len() == GRID_CELLS,
                self.column_position == s0.col,
                self.color_code == s0.color,
                blank == blank_cell(s0.color),
                0 <= s0.col <= BUFFER_WIDTH,
                forall|i: int|
                    cell_index(row as int, 0) <= i < cell_index(row as int, col as int)
                        ==> self.buffer@[i] == blank_cell(s0.color),
                forall|i: int|
                    0 <= i < GRID_CELLS && !(cell_index(row as int, 0) <= i < cell_index(
                        row as int,
                        col as int,
                    )) ==> self.buffer@[i] == s0.grid[i],
            decreases BUFFER_WIDTH - col,
        {
            self.buffer[row * BUFFER_WIDTH + col] = blank;
            col += 1;
        }
    }

    /// Scrolls: every row moves up one position, the last row becomes
    /// blank, and the cursor returns to column zero.
    fn new_line(&mut self)
        requires
            old(self).wf(),
        ensures
            final(self).wf(),
            final(self)@.grid == scrolled(old(self)@.grid, old(self)@.color),
            final(self)@.col == 0,
            final(self)@.color == old(self)@.color,
    {
        let ghost s0 = self@;
        let mut i: usize = 0;
        while i < GRID_CELLS - BUFFER_WIDTH
            invariant
                i <= GRID_CELLS - BUFFER_WIDTH,
                self.buffer@.len() == GRID_CELLS,
                self.column_position == s0.col,
                self.color_code == s0.color,
                0 <= s0.col <= BUFFER_WIDTH,
                forall|j: int| 0 <= j < i ==> self.buffer@[j] == s0.grid[j + BUFFER_WIDTH],
                forall|j: int| i <= j < GRID_CELLS ==> self.buffer@[j] == s0.grid[j],
            decreases GRID_CELLS - BUFFER_WIDTH - i,
        {
            let ch = self.buffer[i + BUFFER_WIDTH];
            self.buffer[i] = ch;
            i += 1;
        }
        self.clear_row(BUFFER_HEIGHT - 1);
        self.column_position = 0;
        proof {
            assert(self@.grid =~= scrolled(s0.grid, s0.color));
        }
    }

    /// Writes one byte: a newline scrolls; any other byte (after a
    /// scroll if the row is already full) lands in the bottom row at
    /// the cursor, paired with the current color, and the cursor
    /// advances.
    pub fn write_byte(&mut self, byte: u8)
        requires
            old(self).wf(),
        ensures
            final(self).wf(),
            final(self)@ == write_byte_s(old(self)@, byte),
    {
        if byte == NEWLINE {
            self.new_line();
        } else {
            if self.column_position >= BUFFER_WIDTH {
                self.new_line();
            }
            let row = BUFFER_HEIGHT - 1;
            let col = self.column_position;
            let color_code = self.color_code;
            self.buffer[row * BUFFER_WIDTH + col] = ScreenChar { ascii_char: byte, color_code };
            self.column_position = col + 1;
        }
    }

    /// Writes a byte sequence in order, degrading every byte that is
    /// neither printable nor a newline to the placeholder glyph.
    pub fn write_string(&mut self, s: &[u8])
        requires
            old(self).wf(),
        ensures
            final(self).wf(),
            final(self)@ == write_seq_s(old(self)@, s@),
    {
        let ghost s0 = self@;
        let mut i: usize = 0;
        while i < s.len()
            invariant
                i <= s@.len(),
                self.wf(),
                self@ == write_seq_s(s0, s@.take(i as int)),
            decreases s@.len() - i,
        {
            let byte = s[i];
            proof {
                lemma_write_seq_snoc(s0, s@.take(i as int), s@[i as int]);
                assert(s@.take(i as int).push(s@[i as int]) =~= s@.take(i as int + 1));
            }
            if (0x20 <= byte && byte <= 0x7e) || byte == NEWLINE {
                self.write_byte(byte);
            } else {
                self.write_byte(PLACEHOLDER);
            }
            i += 1;
        }
        proof {
            assert(s@.take(s@.len() as int) =~= s@);
        }
    }

    /// The current cursor column.
    pub fn column(&self) -> (c: usize)
        ensures
            c == self@.col,
    {
        self.column_position
    }

    /// The current color attribute.
    pub fn color(&self) -> (c: ColorCode)
        ensures
            c == self@.color,
    {
        self.color_code
    }

    /// The cell stored at (row, col).
    pub fn cell_at(&self, row: usize, col: usize) -> (c: ScreenChar)
        requires
            self.wf(),
            row < BUFFER_HEIGHT,
            col < BUFFER_WIDTH,
        ensures
            c == self@.grid[cell_index(row as int, col as int)],
    {
        self.buffer[row * BUFFER_WIDTH + col]
    }
}

/// One `write_byte` step keeps the state well formed.
pub proof fn lemma_write_byte_wf(s: WState, b: u8)
    requires
        wstate_wf(s),
    ensures
        wstate_wf(write_byte_s(s, b)),
{
}

/// Writing `bytes` and then one more byte is one `write_byte` step
/// after writing `bytes`.
pub proof fn lemma_write_seq_snoc(s: WState, bytes: Seq<u8>, b: u8)
    ensures
        write_seq_s(s, bytes.push(b)) == write_byte_s(write_seq_s(s, bytes), sanitize(b)),
    decreases bytes.len(),
{
    let p = bytes.push(b);
    if bytes.len() == 0 {
        assert(p[0] == b);
        assert(p.skip(1) =~= Seq::<u8>::empty());
        assert(write_seq_s(s, p) == write_seq_s(write_byte_s(s, sanitize(b)), p.skip(1)));
        assert(write_seq_s(write_byte_s(s, sanitize(b)), p.skip(1)) == write_byte_s(
            s,
            sanitize(b),
        ));
        assert(write_seq_s(s, bytes) == s);
    } else {
        assert(p[0] == bytes[0]);
        assert(p.skip(1) =~= bytes.skip(1).push(b));
        assert(write_seq_s(s, p) == write_seq_s(write_byte_s(s, sanitize(bytes[0])), p.skip(1)));
        lemma_write_seq_snoc(write_byte_s(s, sanitize(bytes[0])), bytes.skip(1), b);
        assert(write_seq_s(s, bytes) == write_seq_s(
            write_byte_s(s, sanitize(bytes[0])),
            bytes.skip(1),
        ));
    }
}

/// Law: a non-newline byte lands as one cell that pairs exactly that
/// byte with the writer's current color, at the cursor position (after
/// a scroll if the row was already full), and the cursor advances.
pub proof fn lemma_write_byte_stores_pair(s: WState, b: u8)
    requires
        wstate_wf(s),
        b != NEWLINE,
    ensures
        ({
            let t = write_byte_s(s, b);
            let c0: int = if s.col >= BUFFER_WIDTH { 0 } else { s.col };
            &&& t.grid[cell_index(BUFFER_HEIGHT - 1, c0)] == (ScreenChar {
                ascii_char: b,
                color_code: s.color,
            })
            &&& t.col == c0 + 1
            &&& t.color == s.color
        }),
{
}

/// Law: a byte that is neither printable nor a newline is stored as the
/// placeholder glyph, never as itself.
pub proof fn lemma_unprintable_byte_replaced(s: WState, b: u8)
    requires
        wstate_wf(s),
        !printable(b),
        b != NEWLINE,
    ensures
        ({
            let t = write_seq_s(s, seq![b]);
            let c0: int = if s.col >= BUFFER_WIDTH { 0 } else { s.col };
            &&& t.grid[cell_index(BUFFER_HEIGHT - 1, c0)] == (ScreenChar {
                ascii_char: PLACEHOLDER,
                color_code: s.color,
            })
            &&& t.col == c0 + 1
        }),
{
    let bs = seq![b];
    assert(bs.skip(1) =~= Seq::<u8>::empty());
    assert(write_seq_s(s, bs) == write_seq_s(write_byte_s(s, sanitize(b)), bs.skip(1)));
    assert(write_seq_s(s, bs) == write_byte_s(s, PLACEHOLDER));
}

/// Law: a run of printable bytes that fits in the remainder of the row
/// lands cell by cell from the cursor on, advances the cursor by its
/// length, and touches nothing else.
pub proof fn lemma_printable_run(s: WState, bytes: Seq<u8>)
    requires
        wstate_wf(s),
        forall|i: int| 0 <= i < bytes.len() ==> printable(#[trigger] bytes[i]),
        s.col + bytes.len() <= BUFFER_WIDTH,
    ensures
        ({
            let t = write_seq_s(s, bytes);
            let base = cell_index(BUFFER_HEIGHT - 1, s.col);
            &&& t.col == s.col + bytes.len()
            &&& t.color == s.color
            &&& forall|i: int|
                0 <= i < GRID_CELLS && !(base <= i < base + bytes.len()) ==> t.grid[i]
                    == s.grid[i]
            &&& forall|i: int|
                0 <= i < bytes.len() ==> t.grid[base + i] == (ScreenChar {
                    ascii_char: bytes[i],
                    color_code: s.color,
                })
        }),
    decreases bytes.len(),
{
    if bytes.len() > 0 {
        let b = bytes[0];
        assert(printable(b));
        assert(sanitize(b) == b);
        let s1 = write_byte_s(s, b);
        lemma_write_byte_wf(s, b);
        assert(forall|i: int|
            0 <= i < bytes.skip(1).len() ==> printable(#[trigger] bytes.skip(1)[i]));
        lemma_printable_run(s1, bytes.skip(1));
        assert(write_seq_s(s, bytes) == write_seq_s(s1, bytes.skip(1)));
        let t = write_seq_s(s, bytes);
        let base = cell_index(BUFFER_HEIGHT - 1, s.col);
        let base1 = cell_index(BUFFER_HEIGHT - 1, s1.col);
        assert(s1.col == s.col + 1);
        assert(s1.grid[base] == (ScreenChar { ascii_char: b, color_code: s.color }));
        assert forall|i: int|
            0 <= i < GRID_CELLS && !(base <= i < base + bytes.len()) implies t.grid[i]
            == s.grid[i] by {
            assert(t.grid[i] == s1.grid[i]);
        }
        assert forall|i: int| 0 <= i < bytes.len() implies t.grid[base + i] == (ScreenChar {
            ascii_char: bytes[i],
            color_code: s.color,
        }) by {
            if i == 0 {
                assert(t.grid[base] == s1.grid[base]);
            } else {
                assert(t.grid[base1 + (i - 1)] == (ScreenChar {
                    ascii_char: bytes.skip(1)[i - 1],
                    color_code: s1.color,
                }));
                assert(bytes.skip(1)[i - 1] == bytes[i]);
                assert(base1 + (i - 1) == base + i);
            }
        }
    }
}

/// Law: writing exactly one full row of printable bytes from column
/// zero fills the bottom row without scrolling, and one more printable
/// byte then triggers exactly one scroll and lands at column zero.
pub proof fn lemma_fill_last_row_then_scroll(s: WState, bytes: Seq<u8>, b: u8)
    requires
        wstate_wf(s),
        s.col == 0,
        bytes.len() == BUFFER_WIDTH,
        forall|i: int| 0 <= i < bytes.len() ==> printable(#[trigger] bytes[i]),
        printable(b),
    ensures
        ({
            let t = write_seq_s(s, bytes);
            let u = write_byte_s(t, b);
            &&& t.col == BUFFER_WIDTH
            &&& forall|i: int| 0 <= i < GRID_CELLS - BUFFER_WIDTH ==> t.grid[i] == s.grid[i]
            &&& forall|i: int|
                0 <= i < BUFFER_WIDTH ==> t.grid[cell_index(BUFFER_HEIGHT - 1, i)]
                    == (ScreenChar { ascii_char: bytes[i], color_code: s.color })
            &&& u.grid == scrolled(t.grid, s.color).update(
                cell_index(BUFFER_HEIGHT - 1, 0),
                ScreenChar { ascii_char: b, color_code: s.color },
            )
            &&& u.col == 1
        }),
{
    lemma_printable_run(s, bytes);
}

/// `n` newline bytes.
pub open spec fn newlines(n: nat) -> Seq<u8> {
    Seq::new(n, |i: int| NEWLINE)
}

/// Law: after `n` newline writes, every surviving row has moved up `n`
/// positions, the bottom `n` rows are blank in the writer's color, and
/// the cursor is at column zero.
pub proof fn lemma_newline_scrolls(s: WState, n: nat)
    requires
        wstate_wf(s),
        1 <= n <= BUFFER_HEIGHT,
    ensures
        ({
            let t = write_seq_s(s, newlines(n));
            &&& t.col == 0
            &&& t.color == s.color
            &&& forall|i: int|
                0 <= i < (BUFFER_HEIGHT - n) * BUFFER_WIDTH ==> t.grid[i] == s.grid[
                    i + n * BUFFER_WIDTH
                ]
            &&& forall|i: int|
                (BUFFER_HEIGHT - n) * BUFFER_WIDTH <= i < GRID_CELLS ==> t.grid[i] == blank_cell(
                    s.color,
                )
        }),
    decreases n,
{
    let s1 = write_byte_s(s, NEWLINE);
    assert(sanitize(NEWLINE) == NEWLINE);
    assert(newlines(n)[0] == NEWLINE);
    assert(newlines(n).skip(1) =~= newlines((n - 1) as nat));
    assert(write_seq_s(s, newlines(n)) == write_seq_s(s1, newlines(n).skip(1)));
    let t = write_seq_s(s, newlines(n));
    if n == 1 {
        assert(write_seq_s(s1, newlines(0)) == s1);
        assert forall|i: int|
            0 <= i < (BUFFER_HEIGHT - 1) * BUFFER_WIDTH implies t.grid[i] == s.grid[
            i + BUFFER_WIDTH
        ] by {
            assert(t.grid[i] == scrolled(s.grid, s.color)[i]);
        }
    } else {
        lemma_write_byte_wf(s, NEWLINE);
        lemma_newline_scrolls(s1, (n - 1) as nat);
        let m: int = n - 1;
        assert forall|i: int|
            0 <= i < (BUFFER_HEIGHT - n) * BUFFER_WIDTH implies t.grid[i] == s.grid[
            i + n * BUFFER_WIDTH
        ] by {
            assert(i < (BUFFER_HEIGHT - m) * BUFFER_WIDTH);
            assert(t.grid[i] == s1.grid[i + m * BUFFER_WIDTH]);
            assert(i + m * BUFFER_WIDTH < (BUFFER_HEIGHT - 1) * BUFFER_WIDTH);
            assert(s1.grid[i + m * BUFFER_WIDTH] == s.grid[i + m * BUFFER_WIDTH + BUFFER_WIDTH]);
        }
        assert forall|i: int|
            (BUFFER_HEIGHT - n) * BUFFER_WIDTH <= i < GRID_CELLS implies t.grid[i] == blank_cell(
            s.color,
        ) by {
            if i >= (BUFFER_HEIGHT - m) * BUFFER_WIDTH {
                assert(t.grid[i] == blank_cell(s1.color));
            } else {
                assert(t.grid[i] == s1.grid[i + m * BUFFER_WIDTH]);
                assert(i + m * BUFFER_WIDTH >= (BUFFER_HEIGHT - 1) * BUFFER_WIDTH);
                assert(s1.grid[i + m * BUFFER_WIDTH] == blank_cell(s.color));
            }
        }
    }
}

/// Law: one `write_byte` step is atomic with respect to cell contents:
/// every cell of the new grid is either a cell the old grid already
/// held, the blank cell in the writer's color, or the written byte
/// paired with the writer's color — never a character from one store
/// mixed with a color from another.
pub proof fn lemma_write_byte_atomic(s: WState, b: u8)
    requires
        wstate_wf(s),
    ensures
        forall|i: int|
            0 <= i < GRID_CELLS ==> {
                let c = #[trigger] write_byte_s(s, b).grid[i];
                ||| s.grid.contains(c)
                ||| c == blank_cell(s.color)
                ||| (b != NEWLINE && c == (ScreenChar { ascii_char: b, color_code: s.color }))
            },
{
    let t = write_byte_s(s, b);
    assert forall|i: int| 0 <= i < GRID_CELLS implies {
        let c = #[trigger] t.grid[i];
        ||| s.grid.contains(c)
        ||| c == blank_cell(s.color)
        ||| (b != NEWLINE && c == (ScreenChar { ascii_char: b, color_code: s.color }))
    } by {
        let c = t.grid[i];
        if b == NEWLINE || s.col >= BUFFER_WIDTH {
            let g1 = scrolled(s.grid, s.color);
            if t.grid[i] == g1[i] {
                if i < GRID_CELLS - BUFFER_WIDTH {
                    assert(g1[i] == s.grid[i + BUFFER_WIDTH]);
                    assert(s.grid.contains(c)) by {
                        assert(s.grid[i + BUFFER_WIDTH] == c);
                    }
                } else {
                    assert(g1[i] == blank_cell(s.color));
                }
            } else {
                assert(c == (ScreenChar { ascii_char: b, color_code: s.color }));
            }
        } else {
            if i == cell_index(BUFFER_HEIGHT - 1, s.col) {
                assert(c == (ScreenChar { ascii_char: b, color_code: s.color }));
            } else {
                assert(c == s.grid[i]);
                assert(s.grid.contains(c)) by {
                    assert(s.grid[i] == c);
                }
            }
        }
    }
}

/// Law: whatever bytes are written, every cell of the resulting grid
/// is either one the grid already held or a sanitized character —
/// printable or the placeholder glyph, never a raw control byte — in
/// the writer's color.
pub proof fn lemma_write_seq_sanitized(s: WState, bytes: Seq<u8>)
    requires
        wstate_wf(s),
    ensures
        forall|i: int|
            0 <= i < GRID_CELLS ==> {
                let c = #[trigger] write_seq_s(s, bytes).grid[i];
                ||| s.grid.contains(c)
                ||| ((printable(c.ascii_char) || c.ascii_char == PLACEHOLDER) && c.color_code
                    == s.color)
            },
    decreases bytes.len(),
{
    if bytes.len() > 0 {
        let b = sanitize(bytes[0]);
        let s1 = write_byte_s(s, b);
        lemma_write_byte_wf(s, b);
        lemma_write_byte_atomic(s, b);
        lemma_write_seq_sanitized(s1, bytes.skip(1));
        let t = write_seq_s(s, bytes);
        assert(t == write_seq_s(s1, bytes.skip(1)));
        assert forall|i: int| 0 <= i < GRID_CELLS implies {
            let c = #[trigger] t.grid[i];
            ||| s.grid.contains(c)
            ||| ((printable(c.ascii_char) || c.ascii_char == PLACEHOLDER) && c.color_code
                == s.color)
        } by {
            let c = t.grid[i];
            if s1.grid.contains(c) {
                let j = choose|j: int| 0 <= j < s1.grid.len() && s1.grid[j] == c;
                assert(s1.grid[j] == c);
                if !s.grid.contains(c) && c != blank_cell(s.color) {
                    assert(b != NEWLINE && c == (ScreenChar {
                        ascii_char: b,
                        color_code: s.color,
                    }));
                    assert(printable(b) || b == PLACEHOLDER);
                }
            }
        }
    }
}

} // verus!
