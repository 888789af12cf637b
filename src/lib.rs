//! Rendering engine for HUB75E LED matrix panels, with the menu model,
//! button handling, clock calibration and GNSS frame parsing of the clock
//! firmware around it.
//!
//! The engine turns a 64x64 RGB frame buffer into ten binary-code-modulated
//! phases per row pair, giving ten bits of drive resolution per channel from
//! eight-bit samples. Its two event handlers return the commands for the
//! transfer engine, pixel clock, pulse timer and row-address lines, so the
//! hardware stays outside the library.
use vstd::prelude::*;

pub mod bcm;
pub mod framebuf;
pub mod gamma;
pub mod hub75e;
pub mod menu;
pub mod name;
pub mod rtc;
pub mod switches;
pub mod ublox;

pub use framebuf::{FrameBuf, MainFrameBuf};
pub use hub75e::{Command, Hub75E, ScanPosition};
pub use name::Name;

verus! {
} // verus!
