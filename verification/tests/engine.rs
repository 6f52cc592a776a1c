//! Capture lifecycle: configuration, buffer-pool backpressure, completion
//! correlation and mapping plans.

use capture_engine::camera::{
    plan_buffer_mapping, Camera, CameraConfigurationStatus, CameraEvent, CameraMessage,
    CameraMessageType, ConfigStatus, FdLength, FrameBuffer, Plane, RawCameraImage,
    StreamAllocation,
};
use capture_engine::config::{CameraConfig, PixelFormat, StreamConfig};
use capture_engine::controls::CameraControls;
use capture_engine::image::MultiImage;
use capture_engine::LibcameraError;

fn vga_yuv420_camera(buffer_count: usize) -> Camera {
    let mut cam = Camera::new("front".to_string(), CameraControls::default());
    let config = CameraConfig::new(vec![StreamConfig::new(
        Some(PixelFormat::Yuv420),
        640,
        480,
        buffer_count as u32,
    )]);
    cam.generate_config(config);
    assert_eq!(cam.apply_config(CameraConfigurationStatus::Valid), Ok(ConfigStatus::Unchanged));
    let mut buffers = Vec::new();
    let mut fd_lengths = Vec::new();
    for b in 0..buffer_count {
        let fd = 10 + b as i32;
        buffers.push(FrameBuffer {
            planes: vec![
                Plane { fd, offset: 0, length: 307200 },
                Plane { fd, offset: 307200, length: 76800 },
                Plane { fd, offset: 384000, length: 76800 },
            ],
        });
        fd_lengths.push(FdLength { fd, length: 460800 });
    }
    let allocations = vec![StreamAllocation { buffers }];
    assert_eq!(cam.start_stream(&allocations, &fd_lengths), Ok(true));
    cam
}

#[test]
fn try_start_before_configure() {
    let mut cam = Camera::new("front".to_string(), CameraControls::default());
    let result = cam.start_stream(&Vec::new(), &Vec::new());
    assert!(result.is_err());
}

#[test]
fn start_is_idempotent_and_needs_valid_config() {
    let mut cam = Camera::new("front".to_string(), CameraControls::default());
    cam.generate_config(CameraConfig::new(vec![StreamConfig::new(
        Some(PixelFormat::Yuv420),
        640,
        480,
        4,
    )]));
    // An invalid verdict leaves the camera unconfigured.
    assert_eq!(
        cam.apply_config(CameraConfigurationStatus::Invalid),
        Err(LibcameraError::InvalidConfig)
    );
    assert_eq!(cam.start_stream(&Vec::new(), &Vec::new()), Err(LibcameraError::InvalidConfig));
    // An adjusted verdict installs the device's corrected configuration.
    let adjusted = CameraConfig::new(vec![StreamConfig::new(Some(PixelFormat::Yuv420), 320, 240, 2)]);
    assert_eq!(
        cam.apply_config(CameraConfigurationStatus::Adjusted(adjusted)),
        Ok(ConfigStatus::Changed)
    );
    let cfg = cam.get_config().unwrap();
    assert_eq!(cfg.streams()[0].get_size(), (320, 240));
    // A second start changes nothing and reports "already running".
    let buffers = vec![FrameBuffer { planes: vec![Plane { fd: 5, offset: 0, length: 16 }] }];
    let allocations = vec![StreamAllocation { buffers }];
    let fd_lengths = vec![FdLength { fd: 5, length: 16 }];
    assert_eq!(cam.start_stream(&allocations, &fd_lengths), Ok(true));
    assert_eq!(cam.start_stream(&allocations, &fd_lengths), Ok(false));
}

#[test]
fn backpressure_fails_submissions_beyond_pool_size() {
    let mut cam = vga_yuv420_camera(4);
    let mut serials = Vec::new();
    for t in 0..4 {
        serials.push(cam.capture_next_picture(0, t).unwrap());
    }
    assert_eq!(serials, vec![0, 1, 2, 3]);
    // Every submission beyond the pool size fails with NoBufferReady.
    assert_eq!(cam.capture_next_picture(0, 4), Err(LibcameraError::NoBufferReady));
    assert_eq!(cam.capture_next_picture(0, 5), Err(LibcameraError::NoBufferReady));
    // The four live requests hold four distinct buffers.
    let events: Vec<CameraMessage> = serials
        .iter()
        .map(|s| CameraMessage {
            message_type: CameraMessageType::RequestComplete,
            request_cookie: *s,
            buffer_cookie: 0,
        })
        .collect();
    let completed = cam.poll_events(&events);
    let mut buffer_ids: Vec<usize> = completed
        .iter()
        .map(|e| match e {
            CameraEvent::RequestComplete { image, .. } => image.buffer_id,
        })
        .collect();
    buffer_ids.sort();
    assert_eq!(buffer_ids, vec![0, 1, 2, 3]);
}

#[test]
fn unknown_serial_ids_are_ignored() {
    let mut cam = vga_yuv420_camera(2);
    let s0 = cam.capture_next_picture(0, 0).unwrap();
    let s1 = cam.capture_next_picture(0, 1).unwrap();
    // A completion for a serial id never issued changes nothing.
    let stale = vec![CameraMessage {
        message_type: CameraMessageType::RequestComplete,
        request_cookie: 999,
        buffer_cookie: 0,
    }];
    assert!(cam.poll_events(&stale).is_empty());
    assert!(cam.has_pending_requests());
    // Both buffers are still held: submission still fails.
    assert_eq!(cam.capture_next_picture(0, 2), Err(LibcameraError::NoBufferReady));
    // A completion matched once is retired; replaying it is ignored too.
    let done = vec![CameraMessage {
        message_type: CameraMessageType::RequestComplete,
        request_cookie: s0,
        buffer_cookie: 0,
    }];
    assert_eq!(cam.poll_events(&done).len(), 1);
    assert!(cam.poll_events(&done).is_empty());
    // Buffer-level notifications retire nothing.
    let buffer_only = vec![CameraMessage {
        message_type: CameraMessageType::BufferComplete,
        request_cookie: s1,
        buffer_cookie: 0,
    }];
    assert!(cam.poll_events(&buffer_only).is_empty());
    assert!(cam.has_pending_requests());
}

#[test]
fn capture_complete_cycle_recycles_buffers() {
    // Configure one stream at 640x480 YUV 4:2:0 with 4 buffers, start,
    // submit 4 captures without polling, watch the 5th fail, poll the
    // completions, then submit again successfully.
    let mut cam = vga_yuv420_camera(4);
    let mut serials = Vec::new();
    for t in 0..4 {
        serials.push(cam.capture_next_picture(0, 100 + t).unwrap());
    }
    assert_eq!(cam.capture_next_picture(0, 104), Err(LibcameraError::NoBufferReady));
    let events: Vec<CameraMessage> = serials
        .iter()
        .map(|s| CameraMessage {
            message_type: CameraMessageType::RequestComplete,
            request_cookie: *s,
            buffer_cookie: 0,
        })
        .collect();
    let completed = cam.poll_events(&events);
    assert!(completed.len() <= 4);
    assert_eq!(completed.len(), 4);
    for (k, e) in completed.iter().enumerate() {
        match e {
            CameraEvent::RequestComplete { serial_id, queue_timestamp, image } => {
                assert_eq!(*serial_id, serials[k]);
                assert_eq!(*queue_timestamp, 100 + k as u64);
                assert_eq!(image.pixel_format, Some(PixelFormat::Yuv420));
                assert_eq!((image.width, image.height), (640, 480));
                assert_eq!(image.stream_id, 0);
            },
        }
    }
    assert!(!cam.has_pending_requests());
    // After each completion freed its buffer, submissions succeed again.
    for t in 0..4 {
        assert!(cam.capture_next_picture(0, 200 + t).is_ok());
    }
    assert_eq!(cam.capture_next_picture(0, 204), Err(LibcameraError::NoBufferReady));
}

#[test]
fn aborted_captures_release_and_retry_the_same_buffer() {
    let mut cam = vga_yuv420_camera(2);
    let s0 = cam.capture_next_picture(0, 0).unwrap();
    assert!(cam.abort_capture(s0));
    assert!(!cam.abort_capture(s0));
    // The same buffer is retried: the next capture lands on buffer 0 again.
    let s1 = cam.capture_next_picture(0, 1).unwrap();
    assert_ne!(s0, s1);
    let done = vec![CameraMessage {
        message_type: CameraMessageType::RequestComplete,
        request_cookie: s1,
        buffer_cookie: 0,
    }];
    let completed = cam.poll_events(&done);
    match &completed[0] {
        CameraEvent::RequestComplete { image, .. } => assert_eq!(image.buffer_id, 0),
    }
}

#[test]
fn mapping_plans_share_descriptors_and_check_bounds() {
    // Two planes share one memory object; a third has its own.
    let planes = vec![
        Plane { fd: 7, offset: 0, length: 100 },
        Plane { fd: 7, offset: 100, length: 60 },
        Plane { fd: 8, offset: 0, length: 32 },
    ];
    let fd_lengths = vec![FdLength { fd: 7, length: 200 }, FdLength { fd: 8, length: 32 }];
    let plan = plan_buffer_mapping(&planes, &fd_lengths).unwrap();
    // One region per distinct descriptor, sized to the furthest extent.
    assert_eq!(plan.regions.len(), 2);
    assert_eq!((plan.regions[0].fd, plan.regions[0].length), (7, 160));
    assert_eq!((plan.regions[1].fd, plan.regions[1].length), (8, 32));
    // One view per plane, inside the right region.
    assert_eq!(plan.views.len(), 3);
    assert_eq!(plan.views[0].region, 0);
    assert_eq!((plan.views[1].offset, plan.views[1].length), (100, 60));
    assert_eq!(plan.views[2].region, 1);
    // A plane past the end of its object is a fatal contract violation.
    let oob = vec![Plane { fd: 7, offset: 150, length: 60 }];
    assert!(matches!(plan_buffer_mapping(&oob, &fd_lengths), Err(LibcameraError::PlaneOutOfBounds)));
    // A descriptor the device reports no length for fails the device call.
    let unknown = vec![Plane { fd: 9, offset: 0, length: 10 }];
    assert!(matches!(plan_buffer_mapping(&unknown, &fd_lengths), Err(LibcameraError::DeviceError)));
}

#[test]
fn start_stream_rejects_out_of_bounds_planes() {
    let mut cam = Camera::new("front".to_string(), CameraControls::default());
    cam.generate_config(CameraConfig::new(vec![StreamConfig::new(
        Some(PixelFormat::Yuv420),
        4,
        4,
        1,
    )]));
    cam.apply_config(CameraConfigurationStatus::Valid).unwrap();
    let buffers = vec![FrameBuffer { planes: vec![Plane { fd: 3, offset: 8, length: 16 }] }];
    let allocations = vec![StreamAllocation { buffers }];
    let fd_lengths = vec![FdLength { fd: 3, length: 16 }];
    assert_eq!(
        cam.start_stream(&allocations, &fd_lengths),
        Err(LibcameraError::PlaneOutOfBounds)
    );
    // Nothing was started: a corrected allocation still starts afresh.
    let buffers = vec![FrameBuffer { planes: vec![Plane { fd: 3, offset: 0, length: 16 }] }];
    let allocations = vec![StreamAllocation { buffers }];
    assert_eq!(cam.start_stream(&allocations, &fd_lengths), Ok(true));
}

#[test]
fn raw_images_decode_by_claimed_format() {
    let raw = RawCameraImage {
        pixel_format: Some(PixelFormat::Yuv420),
        width: 2,
        height: 2,
        planes: vec![vec![10, 20, 30, 40], vec![200], vec![60]],
    };
    match raw.try_decode() {
        Some(MultiImage::Yuv420(_)) => {},
        _ => panic!("expected a YUV 4:2:0 image"),
    }
    // A size mismatch yields no image at all.
    let bad = RawCameraImage {
        pixel_format: Some(PixelFormat::Yuv420),
        width: 2,
        height: 2,
        planes: vec![vec![10, 20, 30], vec![200], vec![60]],
    };
    assert!(bad.try_decode().is_none());
    // An unrecognized format yields no image.
    let unknown = RawCameraImage {
        pixel_format: None,
        width: 2,
        height: 2,
        planes: vec![vec![0; 12]],
    };
    assert!(unknown.try_decode().is_none());
}

#[test]
fn streams_are_tracked_independently() {
    let mut cam = Camera::new("front".to_string(), CameraControls::default());
    cam.generate_config(CameraConfig::new(vec![
        StreamConfig::new(Some(PixelFormat::Yuv420), 640, 480, 1),
        StreamConfig::new(Some(PixelFormat::Rgb888), 320, 240, 1),
    ]));
    cam.apply_config(CameraConfigurationStatus::Valid).unwrap();
    let allocations = vec![
        StreamAllocation {
            buffers: vec![FrameBuffer { planes: vec![Plane { fd: 3, offset: 0, length: 64 }] }],
        },
        StreamAllocation {
            buffers: vec![FrameBuffer { planes: vec![Plane { fd: 4, offset: 0, length: 64 }] }],
        },
    ];
    let fd_lengths = vec![FdLength { fd: 3, length: 64 }, FdLength { fd: 4, length: 64 }];
    assert_eq!(cam.start_stream(&allocations, &fd_lengths), Ok(true));
    let s0 = cam.capture_next_picture(0, 0).unwrap();
    let s1 = cam.capture_next_picture(1, 1).unwrap();
    assert_ne!(s0, s1);
    // Stream 0 is exhausted; stream 1's backpressure is independent.
    assert_eq!(cam.capture_next_picture(0, 2), Err(LibcameraError::NoBufferReady));
    let done = vec![CameraMessage {
        message_type: CameraMessageType::RequestComplete,
        request_cookie: s1,
        buffer_cookie: 0,
    }];
    let events = cam.poll_events(&done);
    assert_eq!(events.len(), 1);
    match &events[0] {
        CameraEvent::RequestComplete { image, .. } => {
            assert_eq!(image.stream_id, 1);
            assert_eq!(image.pixel_format, Some(PixelFormat::Rgb888));
            assert_eq!((image.width, image.height), (320, 240));
        },
    }
    assert!(cam.capture_next_picture(1, 3).is_ok());
    assert_eq!(cam.capture_next_picture(0, 4), Err(LibcameraError::NoBufferReady));
}
