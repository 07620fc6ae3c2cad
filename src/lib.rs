//! Structural core of a first-order ambisonic (B-format) audio engine.
//!
//! The sample arithmetic is abstracted by the [`sample::Sample`] and
//! [`sample::Weighted`] traits, so that the ring buffers, filters, mixer
//! bookkeeping, stream control protocol and renderer framing are proved once,
//! for every sample type that implements them.

pub mod sample;
pub mod filter;
pub mod hrir;
pub mod frames;
pub mod hrtf;
pub mod control;
pub mod mixer;
pub mod config;
