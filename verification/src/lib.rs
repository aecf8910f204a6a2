//! Renders tokenized terminal output as an HTML fragment.
//!
//! The crate tracks the Select Graphic Rendition (SGR) attributes that a
//! stream of ANSI escape sequences switches on and off, and wraps every run of
//! literal text in the markup tags that express the attributes active at that
//! point: bold, italic, underline, strikethrough, foreground color and
//! background color.

pub mod decimal;
pub mod color;
pub mod state;
pub mod tags;
pub mod scan;
pub mod escape;
pub mod token;
pub mod render;

pub use crate::color::SgrColor;
pub use crate::render::{render, render_tokens};
pub use crate::state::GraphicsModeState;
pub use crate::token::Token;
