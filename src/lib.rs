//! Conversion of a normalized vector scene into the textual TinyVG format.

pub mod color;
pub mod document;
pub mod text;
pub mod paint;
pub mod scene;
pub mod convert;
pub mod args;
