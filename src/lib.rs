//! Renders the glyphs of a font into square RGBA canvases, one per code point.
//!
//! The library holds the logic of the pipeline: choosing the candidate code
//! points, fitting each glyph into the pixel budget, centring it on a square
//! canvas, naming the output file, and gathering the outcome of a batch.
//! Loading the font, rasterising outlines and writing files are left to the
//! caller, which hands plain values in and takes plain values back.
pub mod batch;
pub mod canvas;
pub mod color;
pub mod error;
pub mod text;
pub mod unicode;
pub mod geometry;
pub mod glyph;
pub mod naming;
pub mod select;
