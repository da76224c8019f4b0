//! A status bar's layout-and-redraw engine.
//!
//! Widgets hand the bar lists of text segments. The bar measures them,
//! places them side by side, shares the room that is left among the
//! segments that stretch, and decides after each update whether one slot
//! or the whole bar has to be painted again. Lengths are whole pixels.
//! Drawing and talking to the display server are left to the caller: every
//! function here takes and returns plain values.
//!
//! The widgets are here as well, as far as they decide what to show: each
//! turns what was read of the system into the texts of its slot.

pub mod bar;
pub mod diff;
pub mod layout;
pub mod pattern;
pub mod strings;
pub mod text;
pub mod widgets;
pub mod window;
pub mod xcb;

pub use bar::{Bar, Offset, Position};
