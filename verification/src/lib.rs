//! A verified data-window-to-tensor-to-prediction pipeline for a fixed-shape
//! time-series forecasting model.
//!
//! An incoming window of timestamped, mixed-type observations is normalized
//! into a chronologically ordered numeric series, encoded into a batched
//! fixed-shape input tensor, run through an opaque inference backend (outside
//! this crate), and the backend's output tensor is decoded back into an
//! ordered sequence of predicted points.
//!
//! Numeric observation values are 32-bit floats. The pipeline never performs
//! arithmetic on them: it only sorts by timestamp, filters, pads, replicates
//! and projects. Values are therefore carried as their IEEE-754 bit patterns
//! (`u32`); the surrounding host code converts with `f32::to_bits` /
//! `f32::from_bits` at the boundary.

pub mod data;
pub mod decode;
pub mod encode;
pub mod normalize;
pub mod pipeline;
