//! Slice-by-slice rasterisation of a three-dimensional escape-time set.
//!
//! A run samples a regular grid of points, decides for each point whether it
//! belongs to the set, and writes one black-and-white PNG image for each
//! sample of the outer axis. This crate holds what of that is decided in
//! integers and bytes: the iteration of the escape-time test around the
//! caller's arithmetic, the shape of the grid, the names of the output files,
//! the layout of a slice's pixel buffer, its encoding, and what a run reports
//! of its failures. Floating-point arithmetic, files and threads are the
//! caller's.

pub mod codec;
pub mod escape;
pub mod grid;
pub mod naming;
pub mod raster;
pub mod report;
pub mod run;
pub mod slice;
