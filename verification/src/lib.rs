//! Streaming technical-analysis indicators with machine-checked contracts.
//!
//! Every indicator is a state that is advanced one sample at a time. A step
//! either opens a new bar or revises the bar in progress, and returns the
//! indicator's value, once enough bars were seen, with the state that follows.
//!
//! The indicators are written against [`scalar::Scalar`], so that the same
//! verified steps run on any arithmetic; [`fixed::Fixed`] is one whose
//! operations are verified as well. Each indicator's module states what a
//! step does as a function on a model of the state, and proves what that
//! comes to over a whole history of bars and under revisions of a bar.

pub mod scalar;
pub mod fixed;
pub mod window;
pub mod retcode;
pub mod batch;
pub mod config;
pub mod sma;
pub mod wma;
pub mod midpoint;
pub mod ema;
pub mod chain;
pub mod dema;
pub mod tema;
pub mod t3;
pub mod trima;
pub mod kama;
pub mod sar;
