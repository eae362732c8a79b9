//! Conway's Game of Life on a finite, non-wrapping grid: the step rule, the
//! neighbor counter, the keystroke-driven editing modes and the text renderer.

pub mod grid;
pub mod step;
pub mod editor;
pub mod render;
