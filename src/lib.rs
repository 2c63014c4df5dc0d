//! Escape-time fractals (Mandelbrot and Julia) on a character grid, with a
//! pannable, zoomable viewport held in fixed-point coordinates.
pub mod fixed;
pub mod escape;
pub mod viewport;
pub mod glyph;
pub mod fractal;
pub mod terminal;
