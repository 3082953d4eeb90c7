# n64_slides

A slide presenter for a 320x240, 16-bit framebuffer, verified with Verus.

- `src/fbcon/`: the framebuffer console. `model.rs` describes the text grid
  and cursor as sequences (`Screen`, `put_char`, `put_str`, `scrolled`) with
  the laws proved about them; `mod.rs` holds `FramebufferConsole`, whose
  methods are proved to follow that model, and whose `flush` is proved to draw
  every pixel from the grid and the 8x8 font.
- `src/console.rs`: the program's console (black on white) and its
  operations.
- `src/cont.rs`: the PIF RAM packets used to read the controller.
- `src/slides/`: the deck, the button-press state machine that pages through
  it, with its laws, and the image and text actions for a slide.
- `app/`: the program around the library: the hardware registers, the
  globals, the main loop and the font data.
- `tests/`: tests of the library on ordinary memory.
