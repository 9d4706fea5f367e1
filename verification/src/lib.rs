//! Escape-time fractal sampling with verified bookkeeping.
//!
//! The crate has three parts, layered leaf first:
//!
//! * [`escape`] counts how long an iterated orbit stays inside its escape
//!   region before a cutoff is reached;
//! * [`grid`] runs that count once for every cell of a rectangular grid and
//!   collects the counts in a [`buffer::DivergenceBuffer`];
//! * [`colormap`] quantizes the counts into indices of a colour table and
//!   writes the colours into a [`buffer::PixelBuffer`].
//!
//! The orbit itself is supplied by the caller as a pair of functions, so the
//! counting, the scan and the quantization are proved for every number type an
//! orbit may be computed in.
mod array;
pub mod buffer;
pub mod colormap;
pub mod error;
pub mod escape;
pub mod grid;
pub mod pipeline;

pub use buffer::{DivergenceBuffer, PixelBuffer};
pub use colormap::{apply_colormap, color_index};
pub use error::FractalError;
pub use escape::escape_time;
pub use grid::sample_grid;
pub use pipeline::pyo3;
