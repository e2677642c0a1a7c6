//! A real-time fundamental-frequency tracker over a stream of integer
//! audio samples.

pub mod config;
pub mod correlation;
pub mod history;
pub mod lerp;
pub mod tracker;
