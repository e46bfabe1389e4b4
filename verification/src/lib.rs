//! Driver core for daisy-chained 8x8 LED matrix modules.
//!
//! Each module is driven by its own controller chip; all chips share one
//! serial bus and one select line.  The crate keeps one framebuffer per
//! module, builds the exact bytes of every bus frame, and hands the frames
//! to a transport that owns the bus.

pub mod command;
pub mod framebuffer;
pub mod error;
pub mod chain;
pub mod transfer;
pub mod glyph;
pub mod halt;
pub mod device;
pub mod surface;
pub mod graphics;
