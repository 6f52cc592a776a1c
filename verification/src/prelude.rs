//! All the things you should need to get started.

pub use crate::camera::{Camera, CameraEvent, CameraMessage, CameraMessageType, ConfigStatus};
pub use crate::config::PixelFormat;
pub use crate::error::LibcameraError;
pub use crate::image::CameraImage;
