//! Discrete core of a Monte Carlo ray tracer: plain-text image encoding,
//! pixel visiting order, the bounce budget of the path estimator, and the
//! choice of output sink.

pub mod ppm;
pub mod output;
pub mod path;
pub mod raster;
pub mod scene;
