//! Real-time intensity-histogram overlay library.
//!
//! Computes per-channel intensity histograms of a frame, normalizes the
//! counts into a bounded screen rectangle, and builds the polyline overlay
//! that plots the three channel curves. The camera, the window and the
//! pixel-buffer type of the vision library stay outside; this crate works
//! on plain values and is verified.

pub mod driver;
pub mod geometry;
pub mod histogram;
pub mod render;
