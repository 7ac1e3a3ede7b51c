//! Batch image-transformation core: an in-memory raster type, per-channel
//! statistics, grayscale/monochrome classifiers, a combined pixel-transform
//! pipeline (flip, grayscale reduction, contrast stretch, inversion), and the
//! destination-path and metadata policies that accompany a transform.
//!
//! All decoding, encoding and metadata I/O is left to callers; every function
//! here is a pure computation over plain values.

pub mod classify;
pub mod exif;
pub mod laws;
pub mod options;
pub mod paths;
pub mod raster;
pub mod stats;
pub mod transform;

pub use exif::ExifField;
pub use options::ConfigOptions;
pub use raster::Raster;
pub use stats::ChannelRange;
pub use transform::TransformError;
