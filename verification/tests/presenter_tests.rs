use n64_slides::cont::ScanPacket;
use n64_slides::fbcon::model::{FB_HEIGHT, FB_WIDTH};
use n64_slides::console::{setup, TEXT_COLOR, BACKGROUND_COLOR};
use n64_slides::slides::deck::{OVERVIEW, QUESTIONS, TITLE};
use n64_slides::slides::{
    image_transfer, show_text, slides, Presenter, Slide, A_KEY, B_KEY, CART_DATA_BASE,
    FRAMEBUFFER_PHYS_ADDR, IMAGE_SIZE, NUM_SLIDES,
};
use volatile::Volatile;

fn press_release(p: &mut Presenter, key: u32) {
    p.on_keys(key);
    p.on_keys(0);
}

#[test]
fn deck_has_title_text_and_five_images() {
    let deck = slides();
    assert_eq!(deck.len(), NUM_SLIDES);
    assert!(matches!(deck[0], Slide::Text(t) if t == TITLE));
    assert!(matches!(deck[1], Slide::Text(t) if t == OVERVIEW));
    for i in 0..5 {
        assert!(matches!(deck[2 + i], Slide::Image(n) if n == i));
    }
    assert!(matches!(deck[30], Slide::Text(t) if t == QUESTIONS));
    let images = deck.iter().filter(|s| matches!(s, Slide::Image(_))).count();
    assert_eq!(images, 5);
}

#[test]
fn presenter_starts_on_title() {
    let p = Presenter::new();
    assert_eq!(p.current(), 0);
    assert!(matches!(p.current_slide(), Slide::Text(t) if t == TITLE));
}

#[test]
fn a_press_and_release_goes_forward() {
    let mut p = Presenter::new();
    p.on_keys(A_KEY);
    assert_eq!(p.current(), 0);
    p.on_keys(A_KEY);
    assert_eq!(p.current(), 0);
    p.on_keys(0);
    assert_eq!(p.current(), 1);
}

#[test]
fn b_press_and_release_goes_back() {
    let mut p = Presenter::new();
    press_release(&mut p, A_KEY);
    press_release(&mut p, A_KEY);
    assert_eq!(p.current(), 2);
    p.on_keys(B_KEY);
    assert_eq!(p.current(), 2);
    p.on_keys(0);
    assert_eq!(p.current(), 1);
}

#[test]
fn b_on_first_slide_stays() {
    let mut p = Presenter::new();
    press_release(&mut p, B_KEY);
    assert_eq!(p.current(), 0);
}

#[test]
fn a_on_last_slide_stays() {
    let mut p = Presenter::new();
    for _ in 0..40 {
        press_release(&mut p, A_KEY);
    }
    assert_eq!(p.current(), NUM_SLIDES - 1);
    assert!(matches!(p.current_slide(), Slide::Text(t) if t == QUESTIONS));
}

#[test]
fn a_wins_when_both_go_down() {
    let mut p = Presenter::new();
    p.on_keys(A_KEY | B_KEY);
    p.on_keys(B_KEY);
    assert_eq!(p.current(), 1);
}

#[test]
fn other_buttons_are_ignored() {
    let mut p = Presenter::new();
    press_release(&mut p, 0x2000_0000);
    press_release(&mut p, 0x0000_ffff);
    assert_eq!(p.current(), 0);
}

#[test]
fn forward_then_back_returns() {
    let mut p = Presenter::new();
    press_release(&mut p, A_KEY);
    press_release(&mut p, A_KEY);
    press_release(&mut p, A_KEY);
    press_release(&mut p, B_KEY);
    assert_eq!(p.current(), 2);
    assert!(matches!(p.current_slide(), Slide::Image(0)));
}

#[test]
fn image_transfer_addresses() {
    assert_eq!(IMAGE_SIZE, 153_600);
    let t = image_transfer(0);
    assert_eq!(t.dram_addr, FRAMEBUFFER_PHYS_ADDR);
    assert_eq!(t.length, 320 * 240 * 2);
    assert_eq!(t.cart_addr, 0x1010_1000);
    let t = image_transfer(4);
    assert_eq!(t.cart_addr, CART_DATA_BASE + 4 * 153_600);
    assert_eq!(t.cart_addr, 0x1019_7000);
}

#[test]
fn scan_packets() {
    let p = ScanPacket::new();
    assert_eq!(p.values, [0u64; 8]);
    let i = ScanPacket::init_packet();
    assert_eq!(
        i.values,
        [0xff01_0401_0000_0000, 0, 0, 0, 0xfe00_0000_0000_0000, 0, 0, 1]
    );
}

#[test]
fn show_text_replaces_screen_and_draws() {
    let mut font = vec![0u8; 256 * 8];
    for c in 0..256usize {
        font[c * 8] = c as u8;
    }
    let mut buf = vec![Volatile::new(0x7777u16); FB_WIDTH * FB_HEIGHT];
    {
        let mut con = setup(320, 240, &mut buf).unwrap();
        n64_slides::console::print_con(&mut con, "old stuff");
        show_text(&mut con, "\n  Hi", &font);
    }
    let code = |col: usize, row: usize| {
        let mut code = 0u8;
        for j in 0..8 {
            if buf[col * 8 + j + row * 8 * FB_WIDTH].read() == TEXT_COLOR {
                code |= 1 << ((8 - j) % 8);
            }
        }
        code
    };
    assert_eq!(code(0, 0), 0);
    assert_eq!(code(2, 1), b'H');
    assert_eq!(code(3, 1), b'i');
    assert_eq!(code(4, 1), 0);
    assert_eq!(buf[5].read(), BACKGROUND_COLOR);
}

#[test]
fn try_show_text_refuses_a_missing_glyph_and_leaves_pixels() {
    let font = vec![0u8; 128 * 8];
    let mut buf = vec![Volatile::new(0x7777u16); FB_WIDTH * FB_HEIGHT];
    {
        let mut con = setup(320, 240, &mut buf).unwrap();
        assert!(!n64_slides::slides::try_show_text(&mut con, "caf\u{e9}", &font));
    }
    assert!(buf.iter().all(|p| p.read() == 0x7777));
}

#[test]
fn try_show_text_ignores_glyphs_scrolled_off() {
    // the unknown character is on the first line, which scrolls off
    let font = vec![0u8; 128 * 8];
    let mut text = String::from("\u{e9}");
    for _ in 0..30 {
        text.push('\n');
    }
    let mut buf = vec![Volatile::new(0x7777u16); FB_WIDTH * FB_HEIGHT];
    {
        let mut con = setup(320, 240, &mut buf).unwrap();
        assert!(n64_slides::slides::try_show_text(&mut con, &text, &font));
    }
    assert!(buf.iter().all(|p| p.read() == BACKGROUND_COLOR));
}

#[test]
fn try_show_text_draws_like_show_text() {
    let mut font = vec![0u8; 256 * 8];
    for c in 0..256usize {
        font[c * 8] = c as u8;
    }
    let mut a = vec![Volatile::new(0x7777u16); FB_WIDTH * FB_HEIGHT];
    let mut b = vec![Volatile::new(0x1234u16); FB_WIDTH * FB_HEIGHT];
    {
        let mut con = setup(320, 240, &mut a).unwrap();
        assert!(n64_slides::slides::try_show_text(&mut con, TITLE, &font));
    }
    {
        let mut con = setup(320, 240, &mut b).unwrap();
        show_text(&mut con, TITLE, &font);
    }
    assert!(a.iter().zip(b.iter()).all(|(p, q)| p.read() == q.read()));
}
