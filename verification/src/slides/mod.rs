//! The slide deck and the logic that pages through it: a press and release
//! of A shows the next slide, a press and release of B the previous one.

pub mod deck;

use vstd::prelude::*;
use crate::console::{clear, flush, print_con};
use crate::fbcon::{FramebufferConsole, drawn};
use crate::fbcon::model::{
    blank_screen, put_str, font_covers, lemma_put_str_concat,
};
use crate::slides::deck::{
    TITLE, OVERVIEW, BRINGUP_0, BRINGUP_1, BRINGUP_2, BRINGUP_3, BRINGUP_4, BRINGUP_5, BRINGUP_6,
    BRINGUP_7, BRINGUP_8, RESULTS_0, RESULTS_1, RESULTS_2, RESULTS_3, RESULTS_4, RESULTS_5,
    RESULTS_6, RESULTS_7, RESULTS_8, FUTURE_0, FUTURE_1, FUTURE_2, FUTURE_3, FUTURE_4, QUESTIONS,
};

verus! {

/// Physical address of the framebuffer in RDRAM.
pub const FRAMEBUFFER_PHYS_ADDR: usize = 0x0030_0000;
/// Width of the screen in pixels.
pub const WIDTH: usize = 320;
/// Height of the screen in pixels.
pub const HEIGHT: usize = 240;
/// Size in bytes of a full-screen image at 16 bits per pixel:
/// `WIDTH * HEIGHT * 2`.
pub const IMAGE_SIZE: usize = 153_600;
/// Cartridge address of the first image; image `n` follows at
/// `n * IMAGE_SIZE` bytes from it.
pub const CART_DATA_BASE: usize = 0x1010_1000;
/// Number of slides in the deck.
pub const NUM_SLIDES: usize = 31;

/// Bit of the A button in the controller's button word.
pub const A_KEY: u32 = 0x8000_0000;
/// Bit of the B button in the controller's button word.
pub const B_KEY: u32 = 0x4000_0000;

/// A slide: a text printed on the console, or a full-screen image read from
/// the cartridge (the number of the image).
#[derive(Clone, Copy)]
pub enum Slide {
    Text(&'static str),
    Image(usize),
}

/// Where the presenter is in a button press.
#[derive(Clone, Copy)]
pub enum ProgressionState {
    /// No press under way: waiting for A or B to go down.
    WaitingForDown,
    /// A went down: the next slide comes when it goes up.
    WaitingForAUp,
    /// B went down: the previous slide comes when it goes up.
    WaitingForBUp,
}

/// The deck, in order.
pub open spec fn deck() -> Seq<Slide> {
    seq![
        Slide::Text(TITLE),
        Slide::Text(OVERVIEW),
        Slide::Image(0),
        Slide::Image(1),
        Slide::Image(2),
        Slide::Image(3),
        Slide::Image(4),
        Slide::Text(BRINGUP_0),
        Slide::Text(BRINGUP_1),
        Slide::Text(BRINGUP_2),
        Slide::Text(BRINGUP_3),
        Slide::Text(BRINGUP_4),
        Slide::Text(BRINGUP_5),
        Slide::Text(BRINGUP_6),
        Slide::Text(BRINGUP_7),
        Slide::Text(BRINGUP_8),
        Slide::Text(RESULTS_0),
        Slide::Text(RESULTS_1),
        Slide::Text(RESULTS_2),
        Slide::Text(RESULTS_3),
        Slide::Text(RESULTS_4),
        Slide::Text(RESULTS_5),
        Slide::Text(RESULTS_6),
        Slide::Text(RESULTS_7),
        Slide::Text(RESULTS_8),
        Slide::Text(FUTURE_0),
        Slide::Text(FUTURE_1),
        Slide::Text(FUTURE_2),
        Slide::Text(FUTURE_3),
        Slide::Text(FUTURE_4),
        Slide::Text(QUESTIONS),
    ]
}

/// The slides of the deck, in order.
pub fn slides() -> (r: [Slide; NUM_SLIDES])
    ensures
        r@ == deck(),
{
    let r = [
        Slide::Text(TITLE),
        Slide::Text(OVERVIEW),
        Slide::Image(0),
        Slide::Image(1),
        Slide::Image(2),
        Slide::Image(3),
        Slide::Image(4),
        Slide::Text(BRINGUP_0),
        Slide::Text(BRINGUP_1),
        Slide::Text(BRINGUP_2),
        Slide::Text(BRINGUP_3),
        Slide::Text(BRINGUP_4),
        Slide::Text(BRINGUP_5),
        Slide::Text(BRINGUP_6),
        Slide::Text(BRINGUP_7),
        Slide::Text(BRINGUP_8),
        Slide::Text(RESULTS_0),
        Slide::Text(RESULTS_1),
        Slide::Text(RESULTS_2),
        Slide::Text(RESULTS_3),
        Slide::Text(RESULTS_4),
        Slide::Text(RESULTS_5),
        Slide::Text(RESULTS_6),
        Slide::Text(RESULTS_7),
        Slide::Text(RESULTS_8),
        Slide::Text(FUTURE_0),
        Slide::Text(FUTURE_1),
        Slide::Text(FUTURE_2),
        Slide::Text(FUTURE_3),
        Slide::Text(FUTURE_4),
        Slide::Text(QUESTIONS),
    ];
    assert(r@ =~= deck());
    r
}

/// Whether the A button is down in the button word `keys`.
pub open spec fn a_pressed(keys: u32) -> bool {
    keys & A_KEY != 0
}

/// Whether the B button is down in the button word `keys`.
pub open spec fn b_pressed(keys: u32) -> bool {
    keys & B_KEY != 0
}

/// The press state and slide number after reading the button word `keys`
/// in press state `state` on slide `slide`. A press starts when A (or else B)
/// goes down; when that button goes up again the slide moves one forward (or
/// back), unless it is already the last (or first) one.
pub open spec fn next_position(state: ProgressionState, slide: int, keys: u32) -> (ProgressionState, int) {
    match state {
        ProgressionState::WaitingForDown => {
            if a_pressed(keys) {
                (ProgressionState::WaitingForAUp, slide)
            } else if b_pressed(keys) {
                (ProgressionState::WaitingForBUp, slide)
            } else {
                (ProgressionState::WaitingForDown, slide)
            }
        },
        ProgressionState::WaitingForAUp => {
            if !a_pressed(keys) {
                (ProgressionState::WaitingForDown, if slide != NUM_SLIDES - 1 { slide + 1 } else { slide })
            } else {
                (ProgressionState::WaitingForAUp, slide)
            }
        },
        ProgressionState::WaitingForBUp => {
            if !b_pressed(keys) {
                (ProgressionState::WaitingForDown, if slide != 0 { slide - 1 } else { slide })
            } else {
                (ProgressionState::WaitingForBUp, slide)
            }
        },
    }
}

/// The press state and slide number after reading the button words
/// `events`, one after the other.
pub open spec fn run(state: ProgressionState, slide: int, events: Seq<u32>) -> (ProgressionState, int)
    decreases events.len(),
{
    if events.len() == 0 {
        (state, slide)
    } else {
        let (s, n) = run(state, slide, events.drop_last());
        next_position(s, n, events.last())
    }
}

/// Reading button words in two batches ends where reading them at once does.
pub proof fn lemma_run_concat(state: ProgressionState, slide: int, a: Seq<u32>, b: Seq<u32>)
    ensures
        run(state, slide, a + b) == run(run(state, slide, a).0, run(state, slide, a).1, b),
    decreases b.len(),
{
    if b.len() == 0 {
        assert(a + b =~= a);
    } else {
        assert((a + b).drop_last() =~= a + b.drop_last());
        assert((a + b).last() == b.last());
        lemma_run_concat(state, slide, a, b.drop_last());
    }
}

/// One button word moves the slide by at most one, only when a held button
/// goes up, and never off the deck.
pub proof fn lemma_step_bounded(state: ProgressionState, slide: int, keys: u32)
    requires
        0 <= slide < NUM_SLIDES,
    ensures
        0 <= next_position(state, slide, keys).1 < NUM_SLIDES,
        slide - 1 <= next_position(state, slide, keys).1 <= slide + 1,
        next_position(state, slide, keys).1 != slide ==> {
            ||| state == ProgressionState::WaitingForAUp && !a_pressed(keys)
            ||| state == ProgressionState::WaitingForBUp && !b_pressed(keys)
        },
{
}

/// Whatever the buttons do, the slide on screen stays one of the deck.
pub proof fn lemma_run_in_deck(state: ProgressionState, slide: int, events: Seq<u32>)
    requires
        0 <= slide < NUM_SLIDES,
    ensures
        0 <= run(state, slide, events).1 < NUM_SLIDES,
    decreases events.len(),
{
    if events.len() > 0 {
        lemma_run_in_deck(state, slide, events.drop_last());
        let (s, n) = run(state, slide, events.drop_last());
        lemma_step_bounded(s, n, events.last());
    }
}

/// With no press under way and neither A nor B down, nothing changes.
pub proof fn lemma_idle(slide: int, keys: u32)
    requires
        !a_pressed(keys),
        !b_pressed(keys),
    ensures
        next_position(ProgressionState::WaitingForDown, slide, keys) == (
            ProgressionState::WaitingForDown,
            slide,
        ),
{
}

/// Pressing A and releasing it shows the next slide, or keeps the last one.
pub proof fn lemma_press_release_a(slide: int, press: u32, release: u32)
    requires
        0 <= slide < NUM_SLIDES,
        a_pressed(press),
        !a_pressed(release),
    ensures
        run(ProgressionState::WaitingForDown, slide, seq![press, release]) == (
            ProgressionState::WaitingForDown,
            if slide < NUM_SLIDES - 1 { slide + 1 } else { slide },
        ),
{
    let e = seq![press, release];
    assert(e.drop_last() =~= seq![press]);
    assert(e.drop_last().drop_last() =~= Seq::<u32>::empty());
    assert(e.last() == release);
    assert(e.drop_last().last() == press);
    reveal_with_fuel(run, 3);
}

/// Pressing B (without A) and releasing it shows the previous slide, or
/// keeps the first one.
pub proof fn lemma_press_release_b(slide: int, press: u32, release: u32)
    requires
        0 <= slide < NUM_SLIDES,
        !a_pressed(press),
        b_pressed(press),
        !b_pressed(release),
    ensures
        run(ProgressionState::WaitingForDown, slide, seq![press, release]) == (
            ProgressionState::WaitingForDown,
            if slide > 0 { slide - 1 } else { slide },
        ),
{
    let e = seq![press, release];
    assert(e.drop_last() =~= seq![press]);
    assert(e.drop_last().drop_last() =~= Seq::<u32>::empty());
    assert(e.last() == release);
    assert(e.drop_last().last() == press);
    reveal_with_fuel(run, 3);
}

/// Going forward with A and back with B returns to the same slide, from any
/// slide but the last.
pub proof fn lemma_forward_then_back(
    slide: int,
    a_press: u32,
    a_release: u32,
    b_press: u32,
    b_release: u32,
)
    requires
        0 <= slide < NUM_SLIDES - 1,
        a_pressed(a_press),
        !a_pressed(a_release),
        !a_pressed(b_press),
        b_pressed(b_press),
        !b_pressed(b_release),
    ensures
        run(
            ProgressionState::WaitingForDown,
            slide,
            seq![a_press, a_release, b_press, b_release],
        ) == (ProgressionState::WaitingForDown, slide),
{
    let first = seq![a_press, a_release];
    let second = seq![b_press, b_release];
    assert(first + second =~= seq![a_press, a_release, b_press, b_release]);
    lemma_run_concat(ProgressionState::WaitingForDown, slide, first, second);
    lemma_press_release_a(slide, a_press, a_release);
    lemma_press_release_b(slide + 1, b_press, b_release);
}

/// Going back with B and forward with A returns to the same slide, from any
/// slide but the first.
pub proof fn lemma_back_then_forward(
    slide: int,
    b_press: u32,
    b_release: u32,
    a_press: u32,
    a_release: u32,
)
    requires
        0 < slide < NUM_SLIDES,
        !a_pressed(b_press),
        b_pressed(b_press),
        !b_pressed(b_release),
        a_pressed(a_press),
        !a_pressed(a_release),
    ensures
        run(
            ProgressionState::WaitingForDown,
            slide,
            seq![b_press, b_release, a_press, a_release],
        ) == (ProgressionState::WaitingForDown, slide),
{
    let first = seq![b_press, b_release];
    let second = seq![a_press, a_release];
    assert(first + second =~= seq![b_press, b_release, a_press, a_release]);
    lemma_run_concat(ProgressionState::WaitingForDown, slide, first, second);
    lemma_press_release_b(slide, b_press, b_release);
    lemma_press_release_a(slide - 1, a_press, a_release);
}

/// While the button that started a press is held, the press goes on and the
/// slide stays: A held in `WaitingForAUp`, B held in `WaitingForBUp`.
pub proof fn lemma_held_press_waits(slide: int, keys: u32)
    ensures
        a_pressed(keys) ==> next_position(ProgressionState::WaitingForAUp, slide, keys) == (
            ProgressionState::WaitingForAUp,
            slide,
        ),
        b_pressed(keys) ==> next_position(ProgressionState::WaitingForBUp, slide, keys) == (
            ProgressionState::WaitingForBUp,
            slide,
        ),
{
}

/// `k` frames of `keys` in a row.
pub open spec fn frames(keys: u32, k: nat) -> Seq<u32> {
    Seq::new(k, |i: int| keys)
}

/// Holding B alone for any number of frames and then releasing everything
/// shows the previous slide (or keeps the first); likewise A shows the next
/// slide (or keeps the last).
pub proof fn lemma_long_press(slide: int, k: nat)
    requires
        0 <= slide < NUM_SLIDES,
        k >= 1,
    ensures
        run(ProgressionState::WaitingForDown, slide, frames(B_KEY, k).push(0)) == (
            ProgressionState::WaitingForDown,
            if slide > 0 { slide - 1 } else { slide },
        ),
        run(ProgressionState::WaitingForDown, slide, frames(A_KEY, k).push(0)) == (
            ProgressionState::WaitingForDown,
            if slide < NUM_SLIDES - 1 { slide + 1 } else { slide },
        ),
{
    assert(B_KEY & A_KEY == 0) by (bit_vector);
    assert(B_KEY & B_KEY != 0) by (bit_vector);
    assert(A_KEY & A_KEY != 0) by (bit_vector);
    assert(0u32 & A_KEY == 0) by (bit_vector);
    assert(0u32 & B_KEY == 0) by (bit_vector);
    assert(!a_pressed(0) && !b_pressed(0));
    lemma_held_frames(slide, k);
    assert(frames(B_KEY, k).push(0).last() == 0);
    assert(frames(A_KEY, k).push(0).last() == 0);
    assert(frames(B_KEY, k).push(0).drop_last() =~= frames(B_KEY, k));
    assert(frames(A_KEY, k).push(0).drop_last() =~= frames(A_KEY, k));
}

/// After `k >= 1` frames with B alone down (or A down) a press of that
/// button is under way and the slide has not moved.
proof fn lemma_held_frames(slide: int, k: nat)
    requires
        k >= 1,
    ensures
        run(ProgressionState::WaitingForDown, slide, frames(B_KEY, k)) == (
            ProgressionState::WaitingForBUp,
            slide,
        ),
        run(ProgressionState::WaitingForDown, slide, frames(A_KEY, k)) == (
            ProgressionState::WaitingForAUp,
            slide,
        ),
    decreases k,
{
    assert(B_KEY & A_KEY == 0) by (bit_vector);
    assert(B_KEY & B_KEY != 0) by (bit_vector);
    assert(A_KEY & A_KEY != 0) by (bit_vector);
    assert(!a_pressed(B_KEY) && b_pressed(B_KEY) && a_pressed(A_KEY));
    assert(frames(B_KEY, k).drop_last() =~= frames(B_KEY, (k - 1) as nat));
    assert(frames(A_KEY, k).drop_last() =~= frames(A_KEY, (k - 1) as nat));
    assert(frames(B_KEY, k).last() == B_KEY);
    assert(frames(A_KEY, k).last() == A_KEY);
    if k == 1 {
        assert(frames(B_KEY, 0) =~= Seq::<u32>::empty());
        assert(frames(A_KEY, 0) =~= Seq::<u32>::empty());
    } else {
        lemma_held_frames(slide, (k - 1) as nat);
    }
}

/// The deck's order, slide by slide: the title, the overview, the five
/// images, the nine Bringup slides, the nine Results slides, the five Future
/// slides, and the questions slide.
pub proof fn lemma_deck_order()
    ensures
        deck().len() == 31,
        deck()[0] == Slide::Text(TITLE),
        deck()[1] == Slide::Text(OVERVIEW),
        forall|k: int| 0 <= k < 5 ==> #[trigger] deck()[2 + k] == Slide::Image(k as usize),
        deck()[7] == Slide::Text(BRINGUP_0),
        deck()[8] == Slide::Text(BRINGUP_1),
        deck()[9] == Slide::Text(BRINGUP_2),
        deck()[10] == Slide::Text(BRINGUP_3),
        deck()[11] == Slide::Text(BRINGUP_4),
        deck()[12] == Slide::Text(BRINGUP_5),
        deck()[13] == Slide::Text(BRINGUP_6),
        deck()[14] == Slide::Text(BRINGUP_7),
        deck()[15] == Slide::Text(BRINGUP_8),
        deck()[16] == Slide::Text(RESULTS_0),
        deck()[17] == Slide::Text(RESULTS_1),
        deck()[18] == Slide::Text(RESULTS_2),
        deck()[19] == Slide::Text(RESULTS_3),
        deck()[20] == Slide::Text(RESULTS_4),
        deck()[21] == Slide::Text(RESULTS_5),
        deck()[22] == Slide::Text(RESULTS_6),
        deck()[23] == Slide::Text(RESULTS_7),
        deck()[24] == Slide::Text(RESULTS_8),
        deck()[25] == Slide::Text(FUTURE_0),
        deck()[26] == Slide::Text(FUTURE_1),
        deck()[27] == Slide::Text(FUTURE_2),
        deck()[28] == Slide::Text(FUTURE_3),
        deck()[29] == Slide::Text(FUTURE_4),
        deck()[30] == Slide::Text(QUESTIONS),
{
    assert forall|k: int| 0 <= k < 5 implies #[trigger] deck()[2 + k] == Slide::Image(k as usize) by {
        if k == 0 {} else if k == 1 {} else if k == 2 {} else if k == 3 {} else {}
    }
}

/// Where the presenter is: the slide on screen and the state of the button
/// press under way.
pub struct Presenter {
    cur_slide_num: usize,
    key_state: ProgressionState,
}

impl Presenter {
    /// The number of the slide on screen.
    pub closed spec fn slide_index(&self) -> int {
        self.cur_slide_num as int
    }

    /// The state of the button press under way.
    pub closed spec fn state(&self) -> ProgressionState {
        self.key_state
    }

    /// The slide on screen is always one of the deck.
    #[verifier::type_invariant]
    spec fn in_deck(&self) -> bool {
        self.cur_slide_num < NUM_SLIDES
    }

    /// On the first slide, with no press under way.
    pub fn new() -> (r: Presenter)
        ensures
            r.slide_index() == 0,
            r.state() == ProgressionState::WaitingForDown,
    {
        Presenter { cur_slide_num: 0, key_state: ProgressionState::WaitingForDown }
    }

    /// The number of the slide on screen.
    pub fn current(&self) -> (r: usize)
        ensures
            r == self.slide_index(),
            r < NUM_SLIDES,
    {
        proof {
            use_type_invariant(self);
        }
        self.cur_slide_num
    }

    /// The slide on screen.
    pub fn current_slide(&self) -> (r: Slide)
        ensures
            0 <= self.slide_index() < NUM_SLIDES,
            r == deck()[self.slide_index()],
    {
        proof {
            use_type_invariant(self);
        }
        let deck = slides();
        deck[self.cur_slide_num]
    }

    /// Reads one button word from the controller and moves through the deck
    /// as `next_position` says.
    pub fn on_keys(&mut self, keys: u32)
        ensures
            0 <= final(self).slide_index() < NUM_SLIDES,
            (final(self).state(), final(self).slide_index()) == next_position(
                old(self).state(),
                old(self).slide_index(),
                keys,
            ),
    {
        proof {
            use_type_invariant(&*self);
        }
        let new_key_state = match self.key_state {
            ProgressionState::WaitingForDown => {
                if keys & A_KEY != 0 {
                    ProgressionState::WaitingForAUp
                } else if keys & B_KEY != 0 {
                    ProgressionState::WaitingForBUp
                } else {
                    ProgressionState::WaitingForDown
                }
            },
            ProgressionState::WaitingForAUp => {
                if keys & A_KEY == 0 {
                    if self.cur_slide_num != NUM_SLIDES - 1 {
                        self.cur_slide_num += 1;
                    }
                    ProgressionState::WaitingForDown
                } else {
                    ProgressionState::WaitingForAUp
                }
            },
            ProgressionState::WaitingForBUp => {
                if keys & B_KEY == 0 {
                    if self.cur_slide_num != 0 {
                        self.cur_slide_num -= 1;
                    }
                    ProgressionState::WaitingForDown
                } else {
                    ProgressionState::WaitingForBUp
                }
            },
        };
        self.key_state = new_key_state;
    }
}

/// A transfer of an image from the cartridge into the framebuffer.
pub struct ImageTransfer {
    /// Physical RDRAM address the image goes to.
    pub dram_addr: usize,
    /// Number of bytes.
    pub length: usize,
    /// Cartridge address the image comes from.
    pub cart_addr: usize,
}

/// The transfer that shows image `offset`: a full screen of 16-bit pixels,
/// read from the cartridge `offset` images after the first, into the
/// framebuffer.
pub fn image_transfer(offset: usize) -> (r: ImageTransfer)
    requires
        IMAGE_SIZE * offset + CART_DATA_BASE <= usize::MAX,
    ensures
        r.dram_addr == FRAMEBUFFER_PHYS_ADDR,
        r.length == IMAGE_SIZE,
        r.cart_addr == IMAGE_SIZE * offset + CART_DATA_BASE,
{
    let image_size = WIDTH * HEIGHT * 2;
    let cart_image_base = (image_size * offset) + CART_DATA_BASE;
    ImageTransfer { dram_addr: FRAMEBUFFER_PHYS_ADDR, length: image_size, cart_addr: cart_image_base }
}

/// Empties the console and prints `text` and a line break on it.
fn print_text(con: &mut FramebufferConsole<'_, u16>, text: &str)
    requires
        old(con).wf(),
    ensures
        final(con).wf(),
        final(con).screen() == put_str(blank_screen(), text@.push('\n')),
        final(con).pixels() == old(con).pixels(),
        final(con).same_style(old(con)),
{
    clear(con);
    print_con(con, text);
    print_con(con, "\n");
    proof {
        reveal_strlit("\n");
        assert("\n"@ =~= seq!['\n']);
        assert(text@ + "\n"@ =~= text@.push('\n'));
        lemma_put_str_concat(blank_screen(), text@, "\n"@);
    }
}

/// Shows a text slide: empties the console, prints `text` and a line break,
/// and draws the console into its framebuffer. `font` must hold the glyph of
/// every cell that is then drawn (`font_fits_text` is a simpler condition
/// that implies this, by `lemma_font_fits_text_covers`).
pub fn show_text(con: &mut FramebufferConsole<'_, u16>, text: &str, font: &[u8])
    requires
        old(con).wf(),
        font_covers(
            font@,
            put_str(blank_screen(), text@.push('\n')).cells,
            old(con).null_is_transparent(),
        ),
    ensures
        final(con).wf(),
        final(con).screen() == put_str(blank_screen(), text@.push('\n')),
        final(con).same_style(old(con)),
        drawn(
            final(con).pixels(),
            old(con).pixels(),
            final(con).screen().cells,
            old(con).foreground(),
            old(con).background(),
            old(con).null_is_transparent(),
            font@,
        ),
{
    print_text(con, text);
    flush(con, font);
}

/// `show_text` for any text and font: prints the text as `show_text` does,
/// then draws the console only when `font` holds the glyph of every cell to
/// be drawn, and says whether it did. Without drawing, the framebuffer is
/// left as it was.
pub fn try_show_text(con: &mut FramebufferConsole<'_, u16>, text: &str, font: &[u8]) -> (r: bool)
    requires
        old(con).wf(),
    ensures
        r == font_covers(
            font@,
            put_str(blank_screen(), text@.push('\n')).cells,
            old(con).null_is_transparent(),
        ),
        final(con).wf(),
        final(con).screen() == put_str(blank_screen(), text@.push('\n')),
        final(con).same_style(old(con)),
        r ==> drawn(
            final(con).pixels(),
            old(con).pixels(),
            final(con).screen().cells,
            old(con).foreground(),
            old(con).background(),
            old(con).null_is_transparent(),
            font@,
        ),
        !r ==> final(con).pixels() == old(con).pixels(),
{
    print_text(con, text);
    if con.covers_font(font) {
        flush(con, font);
        true
    } else {
        false
    }
}

} // verus!
