//! Building blocks of an interactive plotting toy.
//!
//! The heart of the crate is [`sort::SortingVisualization`], a sorting engine
//! that advances by one observable unit of work per call, so that a driver can
//! single-step it, run it continuously or abandon it, and read consistent
//! progress figures at every pause.
//!
//! - [`dataset`] holds the values that are sorted.
//! - [`model`] states what the engine does, as a function from state to
//!   state, and [`laws`] what follows for every run.
//! - [`sort`] is the engine itself, [`metrics`] the read-only picture of its
//!   progress, and [`bars`] the integer geometry that a canvas needs to show
//!   that picture.
//! - [`sorts`] holds sorts that run to completion in one call.
//! - [`graph`], [`cursor`], [`raster`], [`coordinate`] and [`config`] serve
//!   the other scenes of the toy: a graph laid out on the pixel grid, the
//!   crosshair, and the pixels of circles and dashed lines.
//! - [`random`] is the one place where chance enters.
//!
//! Everything here is plain data and integer arithmetic. Windows, fonts,
//! sound and floating-point geometry belong to the program that links this
//! crate.

pub mod bars;
pub mod config;
pub mod coordinate;
pub mod cursor;
pub mod dataset;
pub mod graph;
pub mod laws;
pub mod metrics;
pub mod model;
pub mod random;
pub mod raster;
pub mod sort;
pub mod sorts;

pub use crate::coordinate::PixelCoordinate2D;
pub use crate::dataset::Dataset;
pub use crate::metrics::Metrics;
pub use crate::model::SortType;
pub use crate::sort::{SortError, SortingVisualization};
