//! Terminal pixel graphics: sparse canvases that pack several logical pixels
//! into each character cell, one using colored half-block glyphs and one using
//! Braille dot patterns, with a shared line rasterizer.

mod grid;
mod strbuf;

pub use grid::{grown_bound_x, grown_bound_y, lemma_grown_bound_unique, lemma_grown_bound_empty};

pub mod block;
pub mod braille;
pub mod raster;
