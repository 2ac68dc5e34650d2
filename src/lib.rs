//! A falling-glyph terminal rain: a pool of falling cells, the tail
//! gradient they are drawn with, and the per-frame plan of paint and erase
//! operations that keeps the screen consistent without redrawing it whole.
pub mod cell;
mod chance;
pub mod color;
pub mod laws;
pub mod matrix;
pub mod render;
