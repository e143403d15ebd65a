//! Batch image watermarking.
//!
//! One watermark image is scaled relative to each photograph, alpha-blended
//! into its bottom-right corner, and the composited photographs are bundled
//! into a single archive together with a manifest of per-item timings.
//!
//! Every function in this crate is verified against its contract, except the
//! small trusted wrappers around the `image` and `zip` crates and the clock,
//! each of which documents what is taken on trust.

pub mod error;
pub mod ratio;
pub mod geometry;
pub mod raster;
pub mod blend;
pub mod codec;
pub mod processor;
pub mod text;
pub mod archive;
pub mod batch;
pub mod scheduler;
pub mod upload;
pub mod worker;

pub use error::{AppError, BatchError, ItemFailure};
pub use processor::apply_watermark;
pub use raster::{RasterImage, Rgba};
pub use ratio::Ratio;
pub use scheduler::process_multiprocess;
pub use upload::process_watermark;
