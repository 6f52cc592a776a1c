//! Error taxonomy of the capture engine.
//!
//! Recoverable conditions (configuration rejected, no buffer ready, control
//! value out of range) are distinguished from fatal driver-contract
//! violations (a plane extending past its memory object).

use vstd::prelude::*;

verus! {

/// An error raised by the capture engine.
#[derive(Debug, Clone, Copy, PartialEq, Eq, Structural)]
pub enum LibcameraError {
    /// The configuration is invalid, missing, or was rejected by the device.
    InvalidConfig,
    /// A capture was requested but every buffer of the stream is in use.
    /// Expected backpressure: poll completions, then retry.
    NoBufferReady,
    /// A control value was set outside its acceptable range.
    InvalidControlValue,
    /// A control value could not be converted to its declared type.
    ControlValueError,
    /// A plane references bytes past the end of its backing memory object.
    /// Fatal driver-contract violation: the stream must not be started.
    PlaneOutOfBounds,
    /// The device stack failed a call, e.g. it could not report the length
    /// of a buffer's memory object.
    DeviceError,
    /// A decoded image was not in the expected format.
    BadImageFormat,
    /// An image could not be encoded or decoded.
    ImageError,
}

/// Result type of the capture engine.
pub type Result<T> = core::result::Result<T, LibcameraError>;

} // verus!
