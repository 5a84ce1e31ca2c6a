//! Feature extraction for tri-axial sensor windows: the deterministic part of a
//! max-hold Welch pipeline, with every sample carried as the bit pattern of an
//! IEEE-754 binary64 number.
//!
//! The library decides and arranges; it performs no real arithmetic itself.
//! Means, moments, transforms and logarithms are computed by the caller, who is
//! told by [`pipeline::Extraction`] what to compute next and hands the result
//! back. Everything else (splitting a frame into axes, cutting zero-padded
//! windows, holding the per-bin maximum, the degenerate-value rules and the
//! layout of the feature vector) is done and proved here.

pub mod assembler;
pub mod binary64;
pub mod classifier;
pub mod config;
pub mod demux;
pub mod descriptor;
pub mod error;
pub mod pipeline;
pub mod serial;
pub mod spectrum;
pub mod text;
pub mod window;
