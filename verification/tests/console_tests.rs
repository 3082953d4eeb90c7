use n64_slides::console::{clear, flush, print_con, setup, BACKGROUND_COLOR, TEXT_COLOR};
use n64_slides::fbcon::model::{FB_HEIGHT, FB_WIDTH, NUM_CHARS_HEIGHT, NUM_CHARS_WIDTH};
use n64_slides::fbcon::FramebufferConsole;
use volatile::Volatile;

const FG: u16 = 0x1111;
const BG: u16 = 0x2222;
const UNTOUCHED: u16 = 0x7777;

fn framebuffer() -> Vec<Volatile<u16>> {
    vec![Volatile::new(UNTOUCHED); FB_WIDTH * FB_HEIGHT]
}

/// A font whose glyph row 0 of character `c` is the byte `c`, and whose
/// other rows are empty, so that the top pixel row of a cell spells out the
/// code of its character.
fn code_font() -> Vec<u8> {
    let mut font = vec![0u8; 256 * 8];
    for c in 0..256usize {
        font[c * 8] = c as u8;
    }
    font
}

fn pixel(buf: &[Volatile<u16>], x: usize, y: usize) -> u16 {
    buf[x + y * FB_WIDTH].read()
}

/// Reads back the character code drawn in cell (`col`, `row`) with
/// `code_font`: pixel column `j` of a glyph shows bit `(8 - j) % 8`.
fn code_at(buf: &[Volatile<u16>], col: usize, row: usize, fg: u16) -> u8 {
    let mut code = 0u8;
    for j in 0..8 {
        if pixel(buf, col * 8 + j, row * 8) == fg {
            code |= 1 << ((8 - j) % 8);
        }
    }
    code
}

fn row_text(buf: &[Volatile<u16>], row: usize, fg: u16) -> String {
    let mut s = String::new();
    for col in 0..NUM_CHARS_WIDTH {
        let c = code_at(buf, col, row, fg);
        if c == 0 {
            break;
        }
        s.push(c as char);
    }
    s
}

#[test]
fn new_accepts_full_framebuffer() {
    let mut buf = framebuffer();
    assert!(FramebufferConsole::new(320, 240, &mut buf, FG, BG, false).is_some());
}

#[test]
fn new_rejects_wrong_width() {
    let mut buf = framebuffer();
    assert!(FramebufferConsole::new(640, 240, &mut buf, FG, BG, false).is_none());
}

#[test]
fn new_rejects_wrong_height() {
    let mut buf = framebuffer();
    assert!(FramebufferConsole::new(320, 480, &mut buf, FG, BG, false).is_none());
}

#[test]
fn new_rejects_short_buffer() {
    let mut buf = vec![Volatile::new(0u16); 320 * 240 - 1];
    assert!(FramebufferConsole::new(320, 240, &mut buf, FG, BG, false).is_none());
}

#[test]
fn flush_of_empty_console_paints_background() {
    let mut buf = framebuffer();
    let font = code_font();
    {
        let mut con = FramebufferConsole::new(320, 240, &mut buf, FG, BG, false).unwrap();
        con.flush(&font);
    }
    assert!(buf.iter().all(|p| p.read() == BG));
}

#[test]
fn flush_takes_glyph_bits_in_shifted_order() {
    // glyph of 'A': row 0 sets only bit 7, row 1 only bit 0
    let mut font = vec![0u8; 256 * 8];
    font[('A' as usize) * 8] = 0b1000_0000;
    font[('A' as usize) * 8 + 1] = 0b0000_0001;
    let mut buf = framebuffer();
    {
        let mut con = FramebufferConsole::new(320, 240, &mut buf, FG, BG, false).unwrap();
        con.puts("A");
        con.flush(&font);
    }
    for j in 0..8 {
        assert_eq!(pixel(&buf, j, 0), if j == 1 { FG } else { BG });
        assert_eq!(pixel(&buf, j, 1), if j == 0 { FG } else { BG });
        assert_eq!(pixel(&buf, j, 2), BG);
    }
    assert_eq!(pixel(&buf, 8, 0), BG);
}

#[test]
fn transparent_null_cells_leave_pixels() {
    let font = code_font();
    let mut buf = framebuffer();
    {
        let mut con = FramebufferConsole::new(320, 240, &mut buf, FG, BG, true).unwrap();
        con.puts("Hi");
        con.flush(&font);
    }
    assert_eq!(row_text(&buf, 0, FG), "Hi");
    assert_eq!(pixel(&buf, 16, 0), UNTOUCHED);
    assert_eq!(pixel(&buf, 319, 239), UNTOUCHED);
    assert_eq!(pixel(&buf, 0, 7), BG);
}

#[test]
fn putc_writes_at_cursor_and_newline_goes_to_next_row() {
    let font = code_font();
    let mut buf = framebuffer();
    {
        let mut con = FramebufferConsole::new(320, 240, &mut buf, FG, BG, false).unwrap();
        con.putc('a');
        con.putc('b');
        con.putc('\n');
        con.putc('c');
        con.flush(&font);
    }
    assert_eq!(row_text(&buf, 0, FG), "ab");
    assert_eq!(row_text(&buf, 1, FG), "c");
    assert_eq!(row_text(&buf, 2, FG), "");
}

#[test]
fn putc_wraps_after_last_column() {
    let font = code_font();
    let mut buf = framebuffer();
    let line: String = std::iter::repeat('x').take(NUM_CHARS_WIDTH).collect();
    {
        let mut con = FramebufferConsole::new(320, 240, &mut buf, FG, BG, false).unwrap();
        con.puts(&line);
        con.putc('y');
        con.flush(&font);
    }
    assert_eq!(row_text(&buf, 0, FG), line);
    assert_eq!(row_text(&buf, 1, FG), "y");
}

#[test]
fn line_feed_on_bottom_row_scrolls() {
    let font = code_font();
    let mut buf = framebuffer();
    {
        let mut con = FramebufferConsole::new(320, 240, &mut buf, FG, BG, false).unwrap();
        for r in 0..NUM_CHARS_HEIGHT {
            con.puts(&format!("row{}\n", r));
        }
        con.puts("last");
        con.flush(&font);
    }
    // thirty line feeds: the first row scrolled off
    assert_eq!(row_text(&buf, 0, FG), "row1");
    assert_eq!(row_text(&buf, 28, FG), "row29");
    assert_eq!(row_text(&buf, 29, FG), "last");
}

#[test]
fn scroll_moves_rows_up_and_keeps_cursor() {
    let font = code_font();
    let mut buf = framebuffer();
    {
        let mut con = FramebufferConsole::new(320, 240, &mut buf, FG, BG, false).unwrap();
        con.puts("one\ntwo");
        con.scroll();
        con.puts("!");
        con.flush(&font);
    }
    // the cursor stayed at column 3 of row 1
    assert_eq!(row_text(&buf, 0, FG), "two");
    assert_eq!(code_at(&buf, 3, 1, FG), b'!');
    assert_eq!(code_at(&buf, 0, 1, FG), 0);
}

#[test]
fn clear_empties_grid_and_homes_cursor() {
    let font = code_font();
    let mut buf = framebuffer();
    {
        let mut con = FramebufferConsole::new(320, 240, &mut buf, FG, BG, false).unwrap();
        con.puts("some text\nmore");
        con.clear();
        con.puts("z");
        con.flush(&font);
    }
    assert_eq!(row_text(&buf, 0, FG), "z");
    assert_eq!(row_text(&buf, 1, FG), "");
}

#[test]
fn puts_in_pieces_equals_puts_at_once() {
    let font = code_font();
    let mut a = framebuffer();
    let mut b = framebuffer();
    {
        let mut con = FramebufferConsole::new(320, 240, &mut a, FG, BG, false).unwrap();
        con.puts("hello, ");
        con.puts("wor");
        con.puts("ld\nbye");
        con.flush(&font);
    }
    {
        let mut con = FramebufferConsole::new(320, 240, &mut b, FG, BG, false).unwrap();
        con.puts("hello, world\nbye");
        con.flush(&font);
    }
    assert!(a.iter().zip(b.iter()).all(|(p, q)| p.read() == q.read()));
    assert_eq!(row_text(&a, 0, FG), "hello, world");
}

#[test]
fn flush_twice_changes_nothing() {
    let font = code_font();
    let mut a = framebuffer();
    let mut b = framebuffer();
    {
        let mut con = FramebufferConsole::new(320, 240, &mut a, FG, BG, true).unwrap();
        con.puts("abc");
        con.flush(&font);
    }
    {
        let mut con = FramebufferConsole::new(320, 240, &mut b, FG, BG, true).unwrap();
        con.puts("abc");
        con.flush(&font);
        con.flush(&font);
    }
    assert!(a.iter().zip(b.iter()).all(|(p, q)| p.read() == q.read()));
}

#[test]
fn setup_draws_black_on_white() {
    let font = code_font();
    let mut buf = framebuffer();
    {
        let mut con = setup(320, 240, &mut buf).unwrap();
        print_con(&mut con, "ok");
        flush(&mut con, &font);
    }
    assert_eq!(row_text(&buf, 0, TEXT_COLOR), "ok");
    assert_eq!(pixel(&buf, 100, 100), BACKGROUND_COLOR);
}

#[test]
fn setup_rejects_other_sizes() {
    let mut buf = framebuffer();
    assert!(setup(640, 480, &mut buf).is_none());
}

#[test]
fn console_clear_then_print() {
    let font = code_font();
    let mut buf = framebuffer();
    {
        let mut con = setup(320, 240, &mut buf).unwrap();
        print_con(&mut con, "first\nsecond");
        clear(&mut con);
        print_con(&mut con, "third");
        flush(&mut con, &font);
    }
    assert_eq!(row_text(&buf, 0, TEXT_COLOR), "third");
    assert_eq!(row_text(&buf, 1, TEXT_COLOR), "");
}

#[test]
fn opaque_flush_ignores_old_pixels() {
    let font = code_font();
    let mut a = framebuffer();
    let mut b = vec![Volatile::new(0x0abcu16); FB_WIDTH * FB_HEIGHT];
    for (i, p) in b.iter_mut().enumerate() {
        p.write(i as u16);
    }
    {
        let mut con = FramebufferConsole::new(320, 240, &mut a, FG, BG, false).unwrap();
        con.puts("same\ntext");
        con.flush(&font);
    }
    {
        let mut con = FramebufferConsole::new(320, 240, &mut b, FG, BG, false).unwrap();
        con.puts("same\ntext");
        con.flush(&font);
    }
    assert!(a.iter().zip(b.iter()).all(|(p, q)| p.read() == q.read()));
}

#[test]
fn repeated_scrolls_move_rows_up_by_their_count() {
    let font = code_font();
    let mut buf = framebuffer();
    {
        let mut con = FramebufferConsole::new(320, 240, &mut buf, FG, BG, false).unwrap();
        for r in 0..5 {
            con.puts(&format!("r{}\n", r));
        }
        con.scroll();
        con.scroll();
        con.flush(&font);
    }
    assert_eq!(row_text(&buf, 0, FG), "r2");
    assert_eq!(row_text(&buf, 2, FG), "r4");
    assert_eq!(row_text(&buf, 3, FG), "");
}

#[test]
fn scrolling_a_full_screen_empties_it() {
    let font = code_font();
    let mut buf = framebuffer();
    {
        let mut con = FramebufferConsole::new(320, 240, &mut buf, FG, BG, false).unwrap();
        for r in 0..NUM_CHARS_HEIGHT {
            con.puts(&format!("line {}", r));
            if r + 1 < NUM_CHARS_HEIGHT {
                con.putc('\n');
            }
        }
        for _ in 0..NUM_CHARS_HEIGHT {
            con.scroll();
        }
        con.flush(&font);
    }
    assert!(buf.iter().all(|p| p.read() == BG));
}

#[test]
fn covers_font_checks_drawn_cells_only() {
    let small_font = vec![0u8; 128 * 8];
    let mut buf = framebuffer();
    let mut con = FramebufferConsole::new(320, 240, &mut buf, FG, BG, false).unwrap();
    assert!(con.covers_font(&small_font));
    con.puts("ascii only");
    assert!(con.covers_font(&small_font));
    con.puts("\u{e9}");
    assert!(!con.covers_font(&small_font));
    con.clear();
    assert!(con.covers_font(&small_font));
    // an empty font lacks even the glyph of the empty cell
    assert!(!con.covers_font(&[]));
}

#[test]
fn transparent_empty_cells_need_no_glyph() {
    let mut buf = framebuffer();
    let con = FramebufferConsole::new(320, 240, &mut buf, FG, BG, true).unwrap();
    assert!(con.covers_font(&[]));
}
