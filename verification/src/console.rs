//! The program's console: one framebuffer console with black text on a white
//! background, and the operations that the rest of the program uses on it.

use vstd::prelude::*;
use volatile::Volatile;
use crate::fbcon::FramebufferConsole;
use crate::fbcon::model::{blank_screen, put_str, font_covers, FB_WIDTH, FB_HEIGHT};

verus! {

/// Pixel value of the text (black).
pub const TEXT_COLOR: u16 = 0x0000;
/// Pixel value of the background (white).
pub const BACKGROUND_COLOR: u16 = 0xFFFE;

/// Writes `text` to the console, character by character.
pub fn print_con(con: &mut FramebufferConsole<'_, u16>, text: &str)
    requires
        old(con).wf(),
    ensures
        final(con).wf(),
        final(con).screen() == put_str(old(con).screen(), text@),
        final(con).pixels() == old(con).pixels(),
        final(con).same_style(old(con)),
{
    con.puts(text);
}

/// Draws the console's text into its framebuffer.
pub fn flush(con: &mut FramebufferConsole<'_, u16>, font: &[u8])
    requires
        old(con).wf(),
        font_covers(font@, old(con).screen().cells, old(con).null_is_transparent()),
    ensures
        final(con).wf(),
        final(con).screen() == old(con).screen(),
        final(con).same_style(old(con)),
        final(con).drawn_from(old(con), font@),
{
    con.flush(font);
}

/// Empties the console's text and moves its cursor to the top left.
pub fn clear(con: &mut FramebufferConsole<'_, u16>)
    requires
        old(con).wf(),
    ensures
        final(con).wf(),
        final(con).screen() == blank_screen(),
        final(con).pixels() == old(con).pixels(),
        final(con).same_style(old(con)),
{
    con.clear();
}

/// The console over a `width` by `height` framebuffer, drawing black text on
/// white with every cell opaque; `None` when the framebuffer is not
/// `FB_WIDTH` by `FB_HEIGHT` pixels or `framebuffer` is not that long.
pub fn setup<'a>(width: usize, height: usize, framebuffer: &'a mut [Volatile<u16>]) -> (r: Option<
    FramebufferConsole<'a, u16>,
>)
    ensures
        r is Some <==> (width == FB_WIDTH && height == FB_HEIGHT && old(framebuffer)@.len()
            == width * height),
        r matches Some(c) ==> {
            &&& c.wf()
            &&& c.screen() == blank_screen()
            &&& c.pixels() == old(framebuffer)@
            &&& c.foreground() == TEXT_COLOR
            &&& c.background() == BACKGROUND_COLOR
            &&& !c.null_is_transparent()
        },
{
    FramebufferConsole::new(width, height, framebuffer, TEXT_COLOR, BACKGROUND_COLOR, false)
}

} // verus!
