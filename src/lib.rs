//! Integer core of a small software renderer that spins a textured primitive
//! and streams it as an animated image: RGBA canvases, texture neighbourhood
//! gathering for the samplers, command-line digestion, and the paced frame
//! scheduler that drives the encoder.

pub mod args;
pub mod canvas;
pub mod render;
