//! sigil: gradient ASCII banners for command-line tools.
//!
//! The verified library holds the text processing, layout, color arithmetic
//! and escape generation. Floating-point color science (Oklab sampling) and
//! terminal/file I/O live in the application crate.
pub mod strs;
pub mod color;
pub mod text;
pub mod render;
pub mod standard_flf;
pub mod fonts;
pub mod animate;
pub mod gradient;
pub mod rng;
pub mod mark;
pub mod themes;
pub mod config;
pub mod cli;
pub mod export;
