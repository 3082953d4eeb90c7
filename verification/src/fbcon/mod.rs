//! A text console drawn with an 8x8 font into a 16-bit framebuffer.

pub mod model;

use vstd::prelude::*;
use volatile::Volatile;
use crate::fbcon::model::{
    Screen, FB_WIDTH, FB_HEIGHT, NUM_CHARS_WIDTH, NUM_CHARS_HEIGHT, NUM_CHARS,
    blank_cells, blank_screen, scrolled, put_char, put_str, pixel_index, cell_under, shows_cell,
    font_covers, font_has, glyph_bit, lemma_grid_size, cell_index,
};

verus! {

/// `volatile::Volatile`, a memory cell that is only read and written with
/// volatile accesses.
#[verifier::external_type_specification]
#[verifier::external_body]
#[verifier::reject_recursive_types(T)]
pub struct ExVolatile<T: Copy>(Volatile<T>);

/// The value that a 16-bit `Volatile` cell holds.
pub uninterp spec fn volatile_cell_value(cell: Volatile<u16>) -> u16;

/// Calls `volatile::Volatile::<u16>::write`, which stores `value` in the cell
/// with `ptr::write_volatile`; afterwards the cell holds `value`.
#[verifier::external_body]
fn volatile_write(cell: &mut Volatile<u16>, value: u16)
    ensures
        volatile_cell_value(*final(cell)) == value,
{
    cell.write(value);
}

/// A text console over a framebuffer of `Volatile` pixels.
///
/// The console keeps a grid of characters and a cursor; `flush` draws the
/// grid into the framebuffer.
#[verifier::reject_recursive_types(T)]
pub struct FramebufferConsole<'a, T: 'a + Copy> {
    fb_width: usize,
    fb_height: usize,
    buffer: &'a mut [Volatile<T>],
    char_buffer: [char; NUM_CHARS],
    cur_x: usize,
    cur_y: usize,
    foreground: T,
    background: T,
    null_is_transparent: bool,
}

impl<'a, T: 'a + Copy> FramebufferConsole<'a, T> {
    /// The text grid and the cursor.
    pub closed spec fn screen(&self) -> Screen {
        Screen { cells: self.char_buffer@, col: self.cur_x as int, row: self.cur_y as int }
    }

    /// The framebuffer's pixels, row by row.
    pub closed spec fn pixels(&self) -> Seq<Volatile<T>> {
        self.buffer@
    }

    /// Pixel value drawn for a set bit of a glyph.
    pub closed spec fn foreground(&self) -> T {
        self.foreground
    }

    /// Pixel value drawn for a clear bit of a glyph.
    pub closed spec fn background(&self) -> T {
        self.background
    }

    /// Whether empty (`'\0'`) cells leave the framebuffer untouched.
    pub closed spec fn null_is_transparent(&self) -> bool {
        self.null_is_transparent
    }

    /// The console's invariant: a framebuffer of the supported size and a
    /// cursor on the grid.
    pub closed spec fn wf(&self) -> bool {
        &&& self.fb_width == FB_WIDTH
        &&& self.fb_height == FB_HEIGHT
        &&& self.buffer@.len() == FB_WIDTH * FB_HEIGHT
        &&& self.screen().wf()
    }

    /// Both consoles draw with the same colours and the same treatment of
    /// empty cells.
    pub open spec fn same_style(&self, other: &Self) -> bool {
        &&& self.foreground() == other.foreground()
        &&& self.background() == other.background()
        &&& self.null_is_transparent() == other.null_is_transparent()
    }

    /// A console over `buffer`, when the framebuffer is `FB_WIDTH` by
    /// `FB_HEIGHT` pixels and `buffer` holds exactly that many; `None`
    /// otherwise. The grid starts empty with the cursor at the top left.
    pub fn new(
        fb_width: usize,
        fb_height: usize,
        buffer: &'a mut [Volatile<T>],
        foreground: T,
        background: T,
        null_is_transparent: bool,
    ) -> (r: Option<FramebufferConsole<'a, T>>)
        ensures
            r is Some <==> (fb_width == FB_WIDTH && fb_height == FB_HEIGHT && old(buffer)@.len()
                == fb_width * fb_height),
            r matches Some(c) ==> {
                &&& c.wf()
                &&& c.screen() == blank_screen()
                &&& c.pixels() == old(buffer)@
                &&& c.foreground() == foreground
                &&& c.background() == background
                &&& c.null_is_transparent() == null_is_transparent
            },
    {
        if FB_WIDTH != fb_width || FB_HEIGHT != fb_height {
            return None;
        }
        if fb_width * fb_height != buffer.len() {
            return None;
        }
        let r = FramebufferConsole {
            fb_width: fb_width,
            fb_height: fb_height,
            buffer: buffer,
            char_buffer: ['\0'; NUM_CHARS],
            cur_x: 0,
            cur_y: 0,
            foreground: foreground,
            background: background,
            null_is_transparent: null_is_transparent,
        };
        proof {
            lemma_grid_size();
        }
        assert(r.char_buffer@.len() == NUM_CHARS);
        assert(forall|i: int| 0 <= i < NUM_CHARS ==> r.char_buffer@[i] == '\0');
        assert(r.screen().cells =~= blank_cells());
        Some(r)
    }

    /// Empties the grid and moves the cursor to the top left; the
    /// framebuffer is not redrawn.
    pub fn clear(&mut self)
        requires
            old(self).wf(),
        ensures
            final(self).wf(),
            final(self).screen() == blank_screen(),
            final(self).pixels() == old(self).pixels(),
            final(self).same_style(old(self)),
    {
        self.char_buffer = ['\0'; NUM_CHARS];
        self.cur_x = 0;
        self.cur_y = 0;
        assert(self.screen().cells =~= blank_cells());
    }

    /// Writes the characters of `s` one after the other, as `putc` does.
    pub fn puts(&mut self, s: &str)
        requires
            old(self).wf(),
        ensures
            final(self).wf(),
            final(self).screen() == put_str(old(self).screen(), s@),
            final(self).pixels() == old(self).pixels(),
            final(self).same_style(old(self)),
    {
        let ghost start = self.screen();
        for c in it: s.chars()
            invariant
                self.wf(),
                it.seq() == s@,
                self.screen() == put_str(start, s@.take(it.index() as int)),
                self.pixels() == old(self).pixels(),
                self.same_style(old(self)),
        {
            proof {
                let done = s@.take(it.index() as int);
                assert(s@.take(it.index() + 1).drop_last() =~= done);
            }
            self.putc(c);
        }
        proof {
            assert(s@.take(s@.len() as int) =~= s@);
        }
    }

    /// Whether `font` holds the glyph of every cell that `flush` draws.
    pub fn covers_font(&self, font: &[u8]) -> (r: bool)
        requires
            self.wf(),
        ensures
            r == font_covers(font@, self.screen().cells, self.null_is_transparent()),
    {
        proof {
            lemma_grid_size();
        }
        for i in 0..NUM_CHARS
            invariant
                self.wf(),
                forall|j: int|
                    0 <= j < i && shows_cell(#[trigger] self.char_buffer@[j], self.null_is_transparent)
                        ==> font_has(font@, self.char_buffer@[j]),
        {
            let c = self.char_buffer[i];
            if !(c == '\0' && self.null_is_transparent) {
                let code: u32 = c as u32;
                if (code as u64) * 8 + 8 > (font.len() as u64) {
                    assert(!font_has(font@, self.screen().cells[i as int]));
                    return false;
                }
            }
        }
        true
    }

    /// Moves every row of the grid up by one and empties the bottom row; the
    /// cursor does not move.
    pub fn scroll(&mut self)
        requires
            old(self).wf(),
        ensures
            final(self).wf(),
            final(self).screen() == (Screen { cells: scrolled(old(self).screen().cells), ..old(self).screen() }),
            final(self).pixels() == old(self).pixels(),
            final(self).same_style(old(self)),
    {
        let ghost before = self.char_buffer@;
        for offset in 0..NUM_CHARS
            invariant
                self.wf(),
                self.cur_x == old(self).cur_x,
                self.cur_y == old(self).cur_y,
                before == old(self).char_buffer@,
                self.pixels() == old(self).pixels(),
                self.same_style(old(self)),
                forall|i: int| 0 <= i < offset ==> self.char_buffer@[i] == scrolled(before)[i],
                forall|i: int| offset <= i < NUM_CHARS ==> self.char_buffer@[i] == before[i],
        {
            if offset >= (NUM_CHARS - NUM_CHARS_WIDTH) {
                self.char_buffer[offset] = '\0';
            } else {
                let prev = self.char_buffer[offset + NUM_CHARS_WIDTH];
                self.char_buffer[offset] = prev;
            }
        }
        assert(self.char_buffer@ =~= scrolled(before));
    }

    /// Writes one character: `'\n'` moves the cursor to the start of the next
    /// row; any other character is stored under the cursor, which moves one
    /// column right. Past the last column the cursor wraps to the next row, and
    /// past the bottom row the grid scrolls up by one row.
    pub fn putc(&mut self, c: char)
        requires
            old(self).wf(),
        ensures
            final(self).wf(),
            final(self).screen() == put_char(old(self).screen(), c),
            final(self).pixels() == old(self).pixels(),
            final(self).same_style(old(self)),
    {
        match c {
            '\n' => {
                self.cur_y += 1;
                self.cur_x = 0;
            },
            _ => {
                self.char_buffer[self.cur_x + (self.cur_y * NUM_CHARS_WIDTH)] = c;
                self.cur_x += 1;
            },
        }

        if self.cur_x == NUM_CHARS_WIDTH {
            self.cur_y += 1;
            self.cur_x = 0;
        }

        if self.cur_y == NUM_CHARS_HEIGHT {
            self.cur_y -= 1;
            self.scroll();
        }
    }
}

/// Pixel (`x`, `y`) of `after` shows what the grid `cells` puts there: the
/// foreground `fg` where the glyph's bit is set and the background `bg` where
/// it is clear, for a drawn cell; for an undrawn (transparent) cell, the pixel
/// of `before`.
pub open spec fn drawn_pixel(
    after: Seq<Volatile<u16>>,
    before: Seq<Volatile<u16>>,
    cells: Seq<char>,
    fg: u16,
    bg: u16,
    null_is_transparent: bool,
    font: Seq<u8>,
    x: int,
    y: int,
) -> bool {
    let c = cell_under(cells, x, y);
    if shows_cell(c, null_is_transparent) {
        volatile_cell_value(after[pixel_index(x, y)]) == if glyph_bit(font, c, x, y) {
            fg
        } else {
            bg
        }
    } else {
        after[pixel_index(x, y)] == before[pixel_index(x, y)]
    }
}

/// `after` is the framebuffer `before` with the grid `cells` drawn into it.
pub open spec fn drawn(
    after: Seq<Volatile<u16>>,
    before: Seq<Volatile<u16>>,
    cells: Seq<char>,
    fg: u16,
    bg: u16,
    null_is_transparent: bool,
    font: Seq<u8>,
) -> bool {
    &&& after.len() == before.len()
    &&& forall|x: int, y: int|
        0 <= x < FB_WIDTH && 0 <= y < FB_HEIGHT ==> #[trigger] drawn_pixel(
            after,
            before,
            cells,
            fg,
            bg,
            null_is_transparent,
            font,
            x,
            y,
        )
}

/// What drawing a grid does to pixel (`x`, `y`), in terms of cell and pixel
/// indices: the cell above it is `x / 8 + 40 * (y / 8)`; when that cell is
/// empty (`'\0'`) and empty cells are transparent, the pixel keeps its old
/// value; for any other cell, whatever its character, the pixel becomes the
/// foreground or the background as the glyph's bit is set or clear, the bit
/// being bit `(8 - x % 8) % 8` of font byte `8 * code + y % 8`.
pub proof fn lemma_drawn_pixels(
    after: Seq<Volatile<u16>>,
    before: Seq<Volatile<u16>>,
    cells: Seq<char>,
    fg: u16,
    bg: u16,
    null_is_transparent: bool,
    font: Seq<u8>,
)
    requires
        drawn(after, before, cells, fg, bg, null_is_transparent, font),
    ensures
        after.len() == before.len(),
        forall|x: int, y: int|
            0 <= x < 320 && 0 <= y < 240 ==> {
                let c = cells[x / 8 + 40 * (y / 8)];
                if c == '\0' && null_is_transparent {
                    #[trigger] after[x + 320 * y] == before[x + 320 * y]
                } else {
                    volatile_cell_value(after[x + 320 * y]) == if (font[(c as u32) * 8 + y % 8] >> (((8
                        - x % 8) % 8) as u32)) & 1u8 != 0u8 {
                        fg
                    } else {
                        bg
                    }
                }
            },
{
    assert forall|x: int, y: int| 0 <= x < 320 && 0 <= y < 240 implies {
        let c = cells[x / 8 + 40 * (y / 8)];
        if c == '\0' && null_is_transparent {
            #[trigger] after[x + 320 * y] == before[x + 320 * y]
        } else {
            volatile_cell_value(after[x + 320 * y]) == if (font[(c as u32) * 8 + y % 8] >> (((8 - x
                % 8) % 8) as u32)) & 1u8 != 0u8 {
                fg
            } else {
                bg
            }
        }
    } by {
        assert(drawn_pixel(after, before, cells, fg, bg, null_is_transparent, font, x, y));
        assert(pixel_index(x, y) == x + 320 * y);
        assert(cell_index(x / 8, y / 8) == x / 8 + 40 * (y / 8));
    }
}

/// Drawing a grid into a framebuffer whose pixels already show that grid
/// changes no pixel's value: drawing again after `flush` is idle.
pub proof fn lemma_drawn_twice(
    p0: Seq<Volatile<u16>>,
    p1: Seq<Volatile<u16>>,
    p2: Seq<Volatile<u16>>,
    cells: Seq<char>,
    fg: u16,
    bg: u16,
    null_is_transparent: bool,
    font: Seq<u8>,
)
    requires
        drawn(p1, p0, cells, fg, bg, null_is_transparent, font),
        drawn(p2, p1, cells, fg, bg, null_is_transparent, font),
    ensures
        p2.len() == p1.len(),
        forall|x: int, y: int|
            0 <= x < FB_WIDTH && 0 <= y < FB_HEIGHT ==> volatile_cell_value(
                #[trigger] p2[pixel_index(x, y)],
            ) == volatile_cell_value(p1[pixel_index(x, y)]),
{
    assert forall|x: int, y: int| 0 <= x < FB_WIDTH && 0 <= y < FB_HEIGHT implies volatile_cell_value(
        #[trigger] p2[pixel_index(x, y)],
    ) == volatile_cell_value(p1[pixel_index(x, y)]) by {
        assert(drawn_pixel(p1, p0, cells, fg, bg, null_is_transparent, font, x, y));
        assert(drawn_pixel(p2, p1, cells, fg, bg, null_is_transparent, font, x, y));
    }
}

/// With every cell drawn (none transparent), the drawn framebuffer depends
/// on the grid alone: whatever two framebuffers held before, drawing the same
/// grid into both leaves the same values.
pub proof fn lemma_drawn_opaque_determined(
    before_a: Seq<Volatile<u16>>,
    after_a: Seq<Volatile<u16>>,
    before_b: Seq<Volatile<u16>>,
    after_b: Seq<Volatile<u16>>,
    cells: Seq<char>,
    fg: u16,
    bg: u16,
    font: Seq<u8>,
)
    requires
        drawn(after_a, before_a, cells, fg, bg, false, font),
        drawn(after_b, before_b, cells, fg, bg, false, font),
    ensures
        forall|x: int, y: int|
            0 <= x < FB_WIDTH && 0 <= y < FB_HEIGHT ==> volatile_cell_value(
                #[trigger] after_a[pixel_index(x, y)],
            ) == volatile_cell_value(after_b[pixel_index(x, y)]),
{
    assert forall|x: int, y: int| 0 <= x < FB_WIDTH && 0 <= y < FB_HEIGHT implies volatile_cell_value(
        #[trigger] after_a[pixel_index(x, y)],
    ) == volatile_cell_value(after_b[pixel_index(x, y)]) by {
        assert(drawn_pixel(after_a, before_a, cells, fg, bg, false, font, x, y));
        assert(drawn_pixel(after_b, before_b, cells, fg, bg, false, font, x, y));
    }
}

impl<'a> FramebufferConsole<'a, u16> {
    /// `self` is `before` with its whole grid drawn into the framebuffer.
    pub open spec fn drawn_from(&self, before: &Self, font: Seq<u8>) -> bool {
        drawn(
            self.pixels(),
            before.pixels(),
            before.screen().cells,
            before.foreground(),
            before.background(),
            before.null_is_transparent(),
            font,
        )
    }

    /// Draws the whole grid into the framebuffer with the 8x8 glyphs of
    /// `font` (8 bytes per character, one byte per glyph row).
    pub fn flush(&mut self, font: &[u8])
        requires
            old(self).wf(),
            font_covers(font@, old(self).screen().cells, old(self).null_is_transparent()),
        ensures
            final(self).wf(),
            final(self).screen() == old(self).screen(),
            final(self).same_style(old(self)),
            final(self).drawn_from(old(self), font@),
    {
        let ghost before = self.buffer@;
        let ghost cells = self.char_buffer@;
        let ghost fg = self.foreground;
        let ghost bg = self.background;
        let ghost transparent = self.null_is_transparent;
        let fb_height = self.fb_height;
        let fb_width = self.fb_width;
        for y in 0..fb_height
            invariant
                self.wf(),
                fb_height == FB_HEIGHT,
                fb_width == FB_WIDTH,
                before == old(self).pixels(),
                cells == old(self).screen().cells,
                fg == old(self).foreground(),
                bg == old(self).background(),
                transparent == old(self).null_is_transparent(),
                self.screen() == old(self).screen(),
                self.same_style(old(self)),
                font_covers(font@, old(self).screen().cells, old(self).null_is_transparent()),
                forall|x2: int, y2: int|
                    0 <= x2 < FB_WIDTH && 0 <= y2 < y ==> #[trigger] drawn_pixel(self.buffer@, before, cells, fg, bg, transparent, font@, x2, y2),
                forall|x2: int, y2: int|
                    0 <= x2 < FB_WIDTH && y <= y2 < FB_HEIGHT ==> #[trigger] self.buffer@[pixel_index(x2, y2)] == before[pixel_index(x2, y2)],
        {
            for x in 0..fb_width
                invariant
                    self.wf(),
                    fb_height == FB_HEIGHT,
                    fb_width == FB_WIDTH,
                    0 <= y < FB_HEIGHT,
                    before == old(self).pixels(),
                    cells == old(self).screen().cells,
                    fg == old(self).foreground(),
                    bg == old(self).background(),
                    transparent == old(self).null_is_transparent(),
                    self.screen() == old(self).screen(),
                    self.same_style(old(self)),
                    font_covers(font@, old(self).screen().cells, old(self).null_is_transparent()),
                    forall|x2: int, y2: int|
                        0 <= x2 < FB_WIDTH && 0 <= y2 < y ==> #[trigger] drawn_pixel(self.buffer@, before, cells, fg, bg, transparent, font@, x2, y2),
                    forall|x2: int|
                        0 <= x2 < x ==> #[trigger] drawn_pixel(self.buffer@, before, cells, fg, bg, transparent, font@, x2, y as int),
                    forall|x2: int, y2: int|
                        0 <= x2 < FB_WIDTH && y < y2 < FB_HEIGHT ==> #[trigger] self.buffer@[pixel_index(x2, y2)] == before[pixel_index(x2, y2)],
                    forall|x2: int|
                        x <= x2 < FB_WIDTH ==> #[trigger] self.buffer@[pixel_index(x2, y as int)] == before[pixel_index(x2, y as int)],
            {
                let ghost prev = self.buffer@;
                let char_x = x / 8;
                let char_y = y / 8;
                assert(char_x < NUM_CHARS_WIDTH && char_y < NUM_CHARS_HEIGHT);
                proof {
                    lemma_grid_size();
                }
                assert(self.char_buffer@.len() == NUM_CHARS);
                let character = self.char_buffer[char_x + (char_y * NUM_CHARS_WIDTH)];
                assert(character == cell_under(old(self).screen().cells, x as int, y as int));

                if character == '\0' && self.null_is_transparent {
                    assert(self.buffer@[pixel_index(x as int, y as int)] == before[pixel_index(x as int, y as int)]);
                } else {
                    let font_row = y % 8;
                    let code: u32 = character as u32;
                    proof {
                        let i = char_x + char_y * NUM_CHARS_WIDTH;
                        assert(self.char_buffer@[i as int] == character);
                        assert(shows_cell(self.screen().cells[i as int], self.null_is_transparent()));
                        assert(code * 8 + 8 <= font@.len());
                    }
                    let font_bits = font[(code as usize) * 8 + font_row];
                    let font_bit = ((font_bits >> (((8 - (x % 8)) % 8) as u32)) & 1) != 0;
                    let value = if font_bit {
                        self.foreground
                    } else {
                        self.background
                    };
                    volatile_write(&mut self.buffer[x + (y * fb_width)], value);
                    proof {
                        assert forall|x2: int, y2: int|
                            0 <= x2 < FB_WIDTH && 0 <= y2 < FB_HEIGHT && (x2 != x || y2 != y) implies
                            #[trigger] self.buffer@[pixel_index(x2, y2)] == prev[pixel_index(x2, y2)] by {
                            assert(pixel_index(x2, y2) != pixel_index(x as int, y as int));
                        }
                        assert forall|x2: int, y2: int|
                            0 <= x2 < FB_WIDTH && 0 <= y2 < y implies #[trigger] drawn_pixel(self.buffer@, before, cells, fg, bg, transparent, font@, x2, y2) by {
                            assert(drawn_pixel(prev, before, cells, fg, bg, transparent, font@, x2, y2));
                            assert(self.buffer@[pixel_index(x2, y2)] == prev[pixel_index(x2, y2)]);
                        }
                        assert forall|x2: int| 0 <= x2 < x implies #[trigger] drawn_pixel(self.buffer@, before, cells, fg, bg, transparent, font@, x2, y as int) by {
                            assert(drawn_pixel(prev, before, cells, fg, bg, transparent, font@, x2, y as int));
                            assert(self.buffer@[pixel_index(x2, y as int)] == prev[pixel_index(x2, y as int)]);
                        }
                        assert(drawn_pixel(self.buffer@, before, cells, fg, bg, transparent, font@, x as int, y as int));
                    }
                }
            }
        }
    }
}

} // verus!
