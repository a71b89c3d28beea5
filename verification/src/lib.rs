//! Overlay drawing logic: colors, draw lists, glyph atlas packing, window input state and
//! device-loss bookkeeping.

pub mod clip;
pub mod color;
pub mod error;
pub mod font;
pub mod geometry;
pub mod input;
pub mod overlay;
pub mod renderer;
pub mod text;
pub mod vertex;
pub mod window;

pub use color::Color;
pub use error::{Error, Result};
