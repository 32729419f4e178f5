//! Build-state tracking and submission-order validation for ray-tracing
//! acceleration structures.
//!
//! A device hands out bottom-level (`Blas`) and top-level (`Tlas`)
//! acceleration structures. Build operations are recorded into command
//! buffers, which a queue later executes in a caller-chosen order. Whether a
//! top-level build or use is backed by correctly built dependencies can only
//! be decided at submission time, by replaying the recorded operations in
//! submission order against the per-resource generation tracker.

pub mod device;
pub mod encoder;
pub mod laws;
pub mod tracker;
pub mod types;
