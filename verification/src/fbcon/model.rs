//! The text grid of the framebuffer console as a mathematical object: a
//! sequence of cells, row by row, and a cursor.

use vstd::prelude::*;

verus! {

/// Width of the framebuffer in pixels.
pub const FB_WIDTH: usize = 320;
/// Height of the framebuffer in pixels.
pub const FB_HEIGHT: usize = 240;
/// Number of character columns (each glyph is 8 pixels wide).
pub const NUM_CHARS_WIDTH: usize = FB_WIDTH / 8;
/// Number of character rows (each glyph is 8 pixels high).
pub const NUM_CHARS_HEIGHT: usize = FB_HEIGHT / 8;
/// Number of cells in the text grid: `NUM_CHARS_WIDTH * NUM_CHARS_HEIGHT`
/// (see `lemma_grid_size`).
pub const NUM_CHARS: usize = 1200;

/// The sizes of the grid, worked out.
pub proof fn lemma_grid_size()
    ensures
        NUM_CHARS_WIDTH == 40,
        NUM_CHARS_HEIGHT == 30,
        NUM_CHARS == 1200,
        NUM_CHARS == NUM_CHARS_WIDTH * NUM_CHARS_HEIGHT,
{
    assert(NUM_CHARS_WIDTH == 40);
    assert(NUM_CHARS_HEIGHT == 30);
    assert(NUM_CHARS_WIDTH * NUM_CHARS_HEIGHT == 1200) by (nonlinear_arith)
        requires
            NUM_CHARS_WIDTH == 40,
            NUM_CHARS_HEIGHT == 30,
    ;
}

/// The text contents of the console: its cells, row by row, and the cursor.
pub struct Screen {
    pub cells: Seq<char>,
    pub col: int,
    pub row: int,
}

impl Screen {
    /// The grid has its full size and the cursor is on it.
    pub open spec fn wf(self) -> bool {
        &&& self.cells.len() == NUM_CHARS
        &&& 0 <= self.col < NUM_CHARS_WIDTH
        &&& 0 <= self.row < NUM_CHARS_HEIGHT
    }
}

/// Index of the cell at column `col` of row `row`.
pub open spec fn cell_index(col: int, row: int) -> int {
    col + row * NUM_CHARS_WIDTH
}

/// A grid of empty (`'\0'`) cells.
pub open spec fn blank_cells() -> Seq<char> {
    Seq::new(NUM_CHARS as nat, |i: int| '\0')
}

/// An empty grid with the cursor in the top left corner.
pub open spec fn blank_screen() -> Screen {
    Screen { cells: blank_cells(), col: 0, row: 0 }
}

/// The grid moved up by one row: every row takes the contents of the row
/// below it, and the bottom row becomes empty.
pub open spec fn scrolled(cells: Seq<char>) -> Seq<char> {
    Seq::new(
        NUM_CHARS as nat,
        |i: int|
            if i < NUM_CHARS - NUM_CHARS_WIDTH {
                cells[i + NUM_CHARS_WIDTH]
            } else {
                '\0'
            },
    )
}

/// The cursor goes to the start of the next row; on the bottom row the grid
/// scrolls up instead and the cursor stays on the bottom row.
pub open spec fn line_feed(s: Screen) -> Screen {
    if s.row + 1 == NUM_CHARS_HEIGHT {
        Screen { cells: scrolled(s.cells), col: 0, row: s.row }
    } else {
        Screen { cells: s.cells, col: 0, row: s.row + 1 }
    }
}

/// Writing one character: `'\n'` is a line feed; any other character is
/// stored under the cursor, and the cursor moves right, wrapping to the next
/// row after the last column.
pub open spec fn put_char(s: Screen, c: char) -> Screen {
    if c == '\n' {
        line_feed(s)
    } else {
        let placed = Screen {
            cells: s.cells.update(cell_index(s.col, s.row), c),
            col: s.col + 1,
            row: s.row,
        };
        if placed.col == NUM_CHARS_WIDTH {
            line_feed(placed)
        } else {
            placed
        }
    }
}

/// Writing a text: its characters one after the other.
pub open spec fn put_str(s: Screen, text: Seq<char>) -> Screen
    decreases text.len(),
{
    if text.len() == 0 {
        s
    } else {
        put_char(put_str(s, text.drop_last()), text.last())
    }
}

/// Writing one character keeps the grid's size and the cursor on the grid.
pub proof fn lemma_put_char_wf(s: Screen, c: char)
    requires
        s.wf(),
    ensures
        put_char(s, c).wf(),
{
    lemma_grid_size();
}

/// Writing any text keeps the grid's size and the cursor on the grid.
pub proof fn lemma_put_str_wf(s: Screen, text: Seq<char>)
    requires
        s.wf(),
    ensures
        put_str(s, text).wf(),
    decreases text.len(),
{
    if text.len() > 0 {
        lemma_put_str_wf(s, text.drop_last());
        lemma_put_char_wf(put_str(s, text.drop_last()), text.last());
    }
}

/// Writing a text in two pieces leaves the console as writing it at once.
pub proof fn lemma_put_str_concat(s: Screen, a: Seq<char>, b: Seq<char>)
    ensures
        put_str(s, a + b) == put_str(put_str(s, a), b),
    decreases b.len(),
{
    if b.len() == 0 {
        assert(a + b =~= a);
    } else {
        assert((a + b).drop_last() =~= a + b.drop_last());
        assert((a + b).last() == b.last());
        lemma_put_str_concat(s, a, b.drop_last());
    }
}

} // verus!

verus! {

/// Index in the framebuffer of the pixel at column `x` of pixel row `y`.
pub open spec fn pixel_index(x: int, y: int) -> int {
    x + y * FB_WIDTH
}

/// The character whose glyph covers pixel (`x`, `y`).
pub open spec fn cell_under(cells: Seq<char>, x: int, y: int) -> char {
    cells[cell_index(x / 8, y / 8)]
}

/// Whether a cell holding `c` is drawn: every cell is, except empty (`'\0'`)
/// ones when they are transparent.
pub open spec fn shows_cell(c: char, null_is_transparent: bool) -> bool {
    !(c == '\0' && null_is_transparent)
}

/// The font holds the 8 glyph rows of `c`.
pub open spec fn font_has(font: Seq<u8>, c: char) -> bool {
    (c as u32) * 8 + 8 <= font.len()
}

/// The font holds the glyph of every character of `cells` that is drawn.
pub open spec fn font_covers(font: Seq<u8>, cells: Seq<char>, null_is_transparent: bool) -> bool {
    forall|i: int|
        0 <= i < cells.len() && shows_cell(#[trigger] cells[i], null_is_transparent) ==> font_has(
            font,
            cells[i],
        )
}

/// The font holds the glyph of every character that writing `text` on an
/// empty grid can leave on it: the characters of `text` other than `'\n'`,
/// and `'\0'` unless empty cells are transparent.
pub open spec fn font_fits_text(font: Seq<u8>, text: Seq<char>, null_is_transparent: bool) -> bool {
    &&& forall|i: int| 0 <= i < text.len() && #[trigger] text[i] != '\n' ==> font_has(font, text[i])
    &&& !null_is_transparent ==> font_has(font, '\0')
}

/// The glyph bit of `c` that is drawn at pixel (`x`, `y`). Glyph row `y % 8`
/// is byte `8 * c + y % 8` of the font, and column `x % 8` takes the bit at
/// position `8 - x % 8`, reduced modulo 8 as a shift of a byte is: column 0
/// takes bit 0, and columns 1 to 7 take bits 7 down to 1.
pub open spec fn glyph_bit(font: Seq<u8>, c: char, x: int, y: int) -> bool {
    let bits = font[(c as u32) * 8 + y % 8];
    (bits >> (((8 - x % 8) % 8) as u32)) & 1u8 != 0u8
}

/// Every character that one write leaves on the grid was already on it, or
/// is the written character (never `'\n'`), or is an empty cell.
pub proof fn lemma_put_char_cells(s: Screen, c: char)
    requires
        s.wf(),
    ensures
        forall|i: int|
            0 <= i < NUM_CHARS ==> {
                let d = #[trigger] put_char(s, c).cells[i];
                d == '\0' || s.cells.contains(d) || (d == c && c != '\n')
            },
{
    lemma_grid_size();
    let placed = if c == '\n' {
        s.cells
    } else {
        s.cells.update(cell_index(s.col, s.row), c)
    };
    assert forall|i: int| 0 <= i < NUM_CHARS implies {
        let d = #[trigger] put_char(s, c).cells[i];
        d == '\0' || s.cells.contains(d) || (d == c && c != '\n')
    } by {
        let d = put_char(s, c).cells[i];
        // the cell of `placed` that ends up at `i`, if any
        let j = if put_char(s, c).cells == placed { i } else { i + NUM_CHARS_WIDTH };
        if d != '\0' {
            assert(put_char(s, c).cells == placed || put_char(s, c).cells == scrolled(placed));
            assert(0 <= j < NUM_CHARS && placed[j] == d);
            if c == '\n' {
                assert(s.cells[j] == d);
            } else if j != cell_index(s.col, s.row) {
                assert(placed == s.cells.update(cell_index(s.col, s.row), c));
                assert(0 <= j < s.cells.len());
                assert(0 <= cell_index(s.col, s.row) < s.cells.len());
                assert(s.cells.update(cell_index(s.col, s.row), c)[j] == s.cells[j]);
                assert(s.cells[j] == d);
            }
        }
    }
}

/// Every character that writing `text` leaves on the grid was already on it,
/// or is a character of `text` other than `'\n'`, or is an empty cell.
pub proof fn lemma_put_str_cells(s: Screen, text: Seq<char>)
    requires
        s.wf(),
    ensures
        forall|i: int|
            0 <= i < NUM_CHARS ==> {
                let d = #[trigger] put_str(s, text).cells[i];
                d == '\0' || s.cells.contains(d) || (text.contains(d) && d != '\n')
            },
    decreases text.len(),
{
    if text.len() > 0 {
        let front = text.drop_last();
        let mid = put_str(s, front);
        lemma_put_str_cells(s, front);
        lemma_put_str_wf(s, front);
        lemma_put_char_cells(mid, text.last());
        assert forall|i: int| 0 <= i < NUM_CHARS implies {
            let d = #[trigger] put_str(s, text).cells[i];
            d == '\0' || s.cells.contains(d) || (text.contains(d) && d != '\n')
        } by {
            let d = put_str(s, text).cells[i];
            assert(put_str(s, text) == put_char(mid, text.last()));
            let e = put_char(mid, text.last()).cells[i];
            if mid.cells.contains(d) {
                let k = choose|k: int| 0 <= k < mid.cells.len() && mid.cells[k] == d;
                let f = put_str(s, front).cells[k];
                if front.contains(d) {
                    let m = choose|m: int| 0 <= m < front.len() && front[m] == d;
                    assert(text[m] == d);
                }
            }
            if d == text.last() {
                assert(text[text.len() - 1] == d);
            }
        }
    }
}

/// Scrolling moves every row up by one and leaves the bottom row empty.
pub proof fn lemma_scrolled_rows(cells: Seq<char>, col: int, row: int)
    requires
        cells.len() == NUM_CHARS,
        0 <= col < NUM_CHARS_WIDTH,
        0 <= row < NUM_CHARS_HEIGHT,
    ensures
        row + 1 < NUM_CHARS_HEIGHT ==> scrolled(cells)[cell_index(col, row)] == cells[cell_index(col, row + 1)],
        row + 1 == NUM_CHARS_HEIGHT ==> scrolled(cells)[cell_index(col, row)] == '\0',
{
    lemma_grid_size();
}

/// A text without line breaks that fits in the rest of the cursor's row is
/// written into the row from the cursor on; the cursor moves past it and no
/// other cell changes.
pub proof fn lemma_put_str_in_row(s: Screen, text: Seq<char>)
    requires
        s.wf(),
        s.col + text.len() < NUM_CHARS_WIDTH,
        forall|i: int| 0 <= i < text.len() ==> text[i] != '\n',
    ensures
        put_str(s, text).row == s.row,
        put_str(s, text).col == s.col + text.len(),
        put_str(s, text).cells.len() == NUM_CHARS,
        forall|k: int| 0 <= k < text.len() ==> #[trigger] put_str(s, text).cells[cell_index(s.col + k, s.row)] == text[k],
        forall|i: int|
            0 <= i < NUM_CHARS && !(cell_index(s.col, s.row) <= i < cell_index(s.col + text.len(), s.row))
                ==> #[trigger] put_str(s, text).cells[i] == s.cells[i],
    decreases text.len(),
{
    lemma_grid_size();
    if text.len() > 0 {
        let front = text.drop_last();
        lemma_put_str_in_row(s, front);
        let mid = put_str(s, front);
        let last = text.last();
        assert(last == text[text.len() - 1]);
        let idx = cell_index(mid.col, mid.row);
        assert(put_str(s, text).cells == mid.cells.update(idx, last));
        assert forall|k: int| 0 <= k < text.len() implies #[trigger] put_str(s, text).cells[cell_index(s.col + k, s.row)] == text[k] by {
            if k < text.len() - 1 {
                assert(front[k] == text[k]);
                assert(mid.cells[cell_index(s.col + k, s.row)] == front[k]);
            }
        }
    }
}

/// The grid after `k` scrolls in a row.
pub open spec fn scrolled_times(cells: Seq<char>, k: nat) -> Seq<char>
    decreases k,
{
    if k == 0 {
        cells
    } else {
        scrolled(scrolled_times(cells, (k - 1) as nat))
    }
}

/// After `k` scrolls in a row every cell holds the cell `k` rows below it,
/// or is empty when that row lay past the bottom.
pub proof fn lemma_scrolled_times(cells: Seq<char>, k: nat)
    requires
        cells.len() == NUM_CHARS,
    ensures
        scrolled_times(cells, k).len() == NUM_CHARS,
        forall|i: int|
            0 <= i < NUM_CHARS ==> #[trigger] scrolled_times(cells, k)[i] == if i + NUM_CHARS_WIDTH * k
                < NUM_CHARS {
                cells[i + NUM_CHARS_WIDTH * k]
            } else {
                '\0'
            },
    decreases k,
{
    lemma_grid_size();
    if k > 0 {
        let k1 = (k - 1) as nat;
        lemma_scrolled_times(cells, k1);
        let prev = scrolled_times(cells, k1);
        assert forall|i: int| 0 <= i < NUM_CHARS implies #[trigger] scrolled_times(cells, k)[i] == if i
            + NUM_CHARS_WIDTH * k < NUM_CHARS {
            cells[i + NUM_CHARS_WIDTH * k]
        } else {
            '\0'
        } by {
            if i < NUM_CHARS - NUM_CHARS_WIDTH {
                assert(scrolled_times(cells, k)[i] == prev[i + NUM_CHARS_WIDTH]);
                assert(i + NUM_CHARS_WIDTH + NUM_CHARS_WIDTH * k1 == i + NUM_CHARS_WIDTH * k);
            }
        }
    }
}

/// Scrolling as many times as the grid has rows, or more, empties it.
pub proof fn lemma_scrolled_times_blank(cells: Seq<char>, k: nat)
    requires
        cells.len() == NUM_CHARS,
        k >= NUM_CHARS_HEIGHT,
    ensures
        scrolled_times(cells, k) == blank_cells(),
{
    lemma_grid_size();
    lemma_scrolled_times(cells, k);
    assert forall|i: int| 0 <= i < NUM_CHARS implies #[trigger] scrolled_times(cells, k)[i] == blank_cells()[i] by {
        assert(NUM_CHARS_WIDTH * k >= NUM_CHARS) by (nonlinear_arith)
            requires
                k >= 30,
                NUM_CHARS_WIDTH == 40,
                NUM_CHARS == 1200,
        ;
    }
    assert(scrolled_times(cells, k) =~= blank_cells());
}

/// A font with the glyphs that `font_fits_text` asks for covers every cell
/// that writing `text` and a line break on an empty grid leaves drawn.
pub proof fn lemma_font_fits_text_covers(font: Seq<u8>, text: Seq<char>, null_is_transparent: bool)
    requires
        font_fits_text(font, text, null_is_transparent),
    ensures
        font_covers(font, put_str(blank_screen(), text.push('\n')).cells, null_is_transparent),
{
    lemma_grid_size();
    let t = text.push('\n');
    lemma_put_str_cells(blank_screen(), t);
    lemma_put_str_wf(blank_screen(), t);
    let cells = put_str(blank_screen(), t).cells;
    assert forall|i: int|
        0 <= i < cells.len() && shows_cell(#[trigger] cells[i], null_is_transparent) implies font_has(
        font,
        cells[i],
    ) by {
        let d = put_str(blank_screen(), t).cells[i];
        if d != '\0' {
            if blank_screen().cells.contains(d) {
                let k = choose|k: int| 0 <= k < blank_screen().cells.len() && blank_screen().cells[k] == d;
                assert(blank_screen().cells[k] == '\0');
            }
            assert(t.contains(d) && d != '\n');
            let m = choose|m: int| 0 <= m < t.len() && t[m] == d;
            assert(m < text.len());
            assert(text[m] == d);
        }
    }
}

/// What writing one character does, case by case, in terms of cell indices:
/// a line break moves the cursor to the start of the next row; any other
/// character is stored at `col + 40 * row` and the cursor moves right; from
/// the last column the cursor wraps to the start of the next row; and leaving
/// the bottom row (row 29) scrolls the grid up, so that cell `i < 1160` takes
/// what cell `i + 40` held (after the store, which for the last column of the
/// bottom row is at index 1199 and so ends at 1159) and cells `1160..1200` become
/// empty, with the cursor at the start of the bottom row.
pub proof fn lemma_put_char_effect(s: Screen, c: char)
    requires
        s.wf(),
    ensures
        c == '\n' && s.row < 29 ==> put_char(s, c) == (Screen { cells: s.cells, col: 0, row: s.row + 1 }),
        c == '\n' && s.row == 29 ==> {
            let r = put_char(s, c);
            &&& r.col == 0
            &&& r.row == 29
            &&& r.cells.len() == 1200
            &&& forall|i: int| 0 <= i < 1160 ==> #[trigger] r.cells[i] == s.cells[i + 40]
            &&& forall|i: int| 1160 <= i < 1200 ==> #[trigger] r.cells[i] == '\0'
        },
        c != '\n' && s.col < 39 ==> put_char(s, c) == (Screen {
            cells: s.cells.update(s.col + 40 * s.row, c),
            col: s.col + 1,
            row: s.row,
        }),
        c != '\n' && s.col == 39 && s.row < 29 ==> put_char(s, c) == (Screen {
            cells: s.cells.update(39 + 40 * s.row, c),
            col: 0,
            row: s.row + 1,
        }),
        c != '\n' && s.col == 39 && s.row == 29 ==> {
            let r = put_char(s, c);
            &&& r.col == 0
            &&& r.row == 29
            &&& r.cells.len() == 1200
            &&& r.cells[1159] == c
            &&& forall|i: int| 0 <= i < 1160 ==> #[trigger] r.cells[i] == s.cells.update(1199, c)[i + 40]
            &&& forall|i: int| 1160 <= i < 1200 ==> #[trigger] r.cells[i] == '\0'
        },
{
    lemma_grid_size();
    if c != '\n' && s.col == 39 && s.row == 29 {
        let placed = s.cells.update(1199, c);
        assert(cell_index(s.col, s.row) == 1199);
        assert(put_char(s, c).cells == scrolled(placed));
        assert(scrolled(placed)[1159] == placed[1199]);
    }
}

/// The font has the glyph of a character exactly when its 8 rows lie inside
/// the font, whatever the character's code; and a grid is covered exactly
/// when every cell that is drawn (not an empty cell when empty cells are
/// transparent) has its glyph.
pub proof fn lemma_font_covers_exact(font: Seq<u8>, cells: Seq<char>, null_is_transparent: bool)
    ensures
        forall|c: char| #[trigger] font_has(font, c) <==> (c as u32) * 8 + 8 <= font.len(),
        font_covers(font, cells, null_is_transparent) <==> forall|i: int|
            0 <= i < cells.len() && (cells[i] != '\0' || !null_is_transparent) ==> (
            #[trigger] cells[i] as u32) * 8 + 8 <= font.len(),
{
}

/// The empty screen that `new` and `clear` give: 1200 cells, all `'\0'`,
/// with the cursor at column 0 of row 0.
pub proof fn lemma_blank_screen()
    ensures
        blank_screen().col == 0,
        blank_screen().row == 0,
        blank_screen().cells.len() == 1200,
        forall|i: int| 0 <= i < 1200 ==> #[trigger] blank_screen().cells[i] == '\0',
{
    lemma_grid_size();
}

} // verus!
