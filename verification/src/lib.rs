//! A verified capture-and-buffer lifecycle engine for a camera pipeline:
//! stream configuration, buffer-pool bookkeeping with at-most-one live
//! request per buffer, zero-copy mapping plans for driver-owned frame
//! buffers, correlation of asynchronous completion events, range-checked
//! runtime controls, and pixel-format decoding into display colour formats.
//!
//! The device stack itself (sensor configuration, memory mapping, hardware
//! queues) stays outside: callers feed the engine what the device reported
//! as plain values and perform the actions it hands back.

pub mod camera;
pub mod config;
pub mod controls;
pub mod error;
pub mod image;
pub mod prelude;

pub use error::{LibcameraError, Result};
