//! A slide presenter for a 320x240 framebuffer: a text console drawn with an
//! 8x8 font, the controller's scan packets, and the logic that pages through
//! the slides on button presses.

pub mod console;
pub mod cont;
pub mod fbcon;
pub mod slides;
