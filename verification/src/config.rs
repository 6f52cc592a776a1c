//! Camera and stream configuration: per-stream pixel format, resolution and
//! buffer count, negotiated with the device before capture starts.

use vstd::prelude::*;

verus! {

/// Common pixel formats a stream can be configured for.
#[derive(Debug, Clone, Copy, PartialEq, Eq, Structural)]
pub enum PixelFormat {
    /// 8bpp single-channel image.
    R8,
    /// 24bpp three-channel image, byte order red, green, blue.
    Rgb888,
    /// 16bpp three-channel image, order red, green, blue.
    Rgb565,
    /// 24bpp three-channel image, byte order blue, green, red.
    Bgr888,
    /// 16bpp YUV 4:2:2 interleaved, order Y' U Y' V.
    Yuyv,
    /// 16bpp YUV 4:2:2 interleaved, order Y' V Y' U.
    Yvyu,
    /// YUV 4:2:0 planar: full-resolution Y plane, half-resolution U and V planes.
    Yuv420,
    /// YUV 4:2:2 planar.
    Yuv422,
    /// Motion JPEG: one JPEG image per frame.
    Mjpeg,
}

/// Configuration of one stream: target pixel format, resolution, and how many
/// frame buffers the device should allocate for it.
#[derive(Debug, Clone, Copy)]
pub struct StreamConfig {
    pixel_format: Option<PixelFormat>,
    width: u32,
    height: u32,
    buffer_count: u32,
}

impl StreamConfig {
    /// The configured pixel format; `None` when the device reported a format
    /// outside [`PixelFormat`].
    pub closed spec fn spec_pixel_format(&self) -> Option<PixelFormat> {
        self.pixel_format
    }

    /// The configured image width in pixels.
    pub closed spec fn spec_width(&self) -> u32 {
        self.width
    }

    /// The configured image height in pixels.
    pub closed spec fn spec_height(&self) -> u32 {
        self.height
    }

    /// The number of frame buffers requested for this stream.
    pub closed spec fn spec_buffer_count(&self) -> u32 {
        self.buffer_count
    }

    /// Builds a stream configuration from its parts.
    pub fn new(pixel_format: Option<PixelFormat>, width: u32, height: u32, buffer_count: u32) -> (r:
        StreamConfig)
        ensures
            r.spec_pixel_format() == pixel_format,
            r.spec_width() == width,
            r.spec_height() == height,
            r.spec_buffer_count() == buffer_count,
    {
        StreamConfig { pixel_format, width, height, buffer_count }
    }

    /// Set the pixel format for this stream.
    pub fn set_pixel_format(&mut self, fmt: PixelFormat)
        ensures
            final(self).spec_pixel_format() == Some(fmt),
            final(self).spec_width() == old(self).spec_width(),
            final(self).spec_height() == old(self).spec_height(),
            final(self).spec_buffer_count() == old(self).spec_buffer_count(),
    {
        self.pixel_format = Some(fmt);
    }

    /// Retrieve the current pixel format, `None` if it is not a known format.
    pub fn get_pixel_format(&self) -> (r: Option<PixelFormat>)
        ensures
            r == self.spec_pixel_format(),
    {
        self.pixel_format
    }

    /// Set the target image size for this stream.
    pub fn set_size(&mut self, width: u32, height: u32)
        ensures
            final(self).spec_width() == width,
            final(self).spec_height() == height,
            final(self).spec_pixel_format() == old(self).spec_pixel_format(),
            final(self).spec_buffer_count() == old(self).spec_buffer_count(),
    {
        self.width = width;
        self.height = height;
    }

    /// Get the target image size `(width, height)` for this stream.
    pub fn get_size(&self) -> (r: (u32, u32))
        ensures
            r.0 == self.spec_width(),
            r.1 == self.spec_height(),
    {
        (self.width, self.height)
    }

    /// Set the number of buffers the device should allocate for this stream.
    pub fn set_buffer_count(&mut self, count: u32)
        ensures
            final(self).spec_buffer_count() == count,
            final(self).spec_pixel_format() == old(self).spec_pixel_format(),
            final(self).spec_width() == old(self).spec_width(),
            final(self).spec_height() == old(self).spec_height(),
    {
        self.buffer_count = count;
    }

    /// Get the number of buffers requested for this stream.
    pub fn get_buffer_count(&self) -> (r: u32)
        ensures
            r == self.spec_buffer_count(),
    {
        self.buffer_count
    }
}

/// Configuration for a camera: one [`StreamConfig`] per negotiated stream
/// role, in role order.
pub struct CameraConfig {
    streams: Vec<StreamConfig>,
}

impl CameraConfig {
    /// The configured streams, in negotiation order.
    pub closed spec fn spec_streams(&self) -> Seq<StreamConfig> {
        self.streams@
    }

    /// Builds a configuration from per-stream configurations.
    pub fn new(streams: Vec<StreamConfig>) -> (r: CameraConfig)
        ensures
            r.spec_streams() == streams@,
    {
        CameraConfig { streams }
    }

    /// Borrow the stream configurations.
    pub fn streams(&self) -> (r: &Vec<StreamConfig>)
        ensures
            r@ == self.spec_streams(),
    {
        &self.streams
    }

    /// Borrow the stream configurations mutably, to adjust them before the
    /// configuration is validated and applied.
    pub fn streams_mut(&mut self) -> (r: &mut Vec<StreamConfig>)
        ensures
            (*r)@ == old(self).spec_streams(),
            final(self).spec_streams() == final(r)@,
    {
        &mut self.streams
    }
}

} // verus!
