//! Escape-time fractal rendering as text: raster geometry, the escape
//! decision of the orbit loop, iteration-count buckets, the text layout of a
//! whole raster and the fitting of a raster to a terminal.

pub mod escape;
pub mod raster;
pub mod render;
pub mod symbol;
pub mod terminal;
