//! Pixel-format construction, conversion and round-trip behaviour.

use capture_engine::image::{
    yuv2rgb, BgrImage, CameraImage, MultiImage, Nv12Image, RgbImage, Yuv420Image, YuyvImage,
};
use capture_engine::LibcameraError;

#[test]
fn yuv_conversion_matches_fixed_point_model() {
    assert_eq!(yuv2rgb(100, 128, 128), (100, 100, 100));
    assert_eq!(yuv2rgb(50, 200, 60), (0, 73, 174));
    assert_eq!(yuv2rgb(255, 0, 255), (255, 209, 33));
    assert_eq!(yuv2rgb(16, 128, 240), (169, 0, 16));
    assert_eq!(yuv2rgb(200, 100, 150), (230, 194, 151));
}

#[test]
fn rgb_bgr_round_trip_is_exact() {
    // 2x2 RGB image with distinct bytes everywhere.
    let data: Vec<u8> = vec![1, 2, 3, 4, 5, 6, 7, 8, 9, 10, 11, 12];
    let rgb = RgbImage::from_planes(2, 2, vec![data.clone()]).unwrap();
    let bgr = rgb.as_bgr().unwrap();
    assert_eq!(bgr.get_planes()[0].to_vec(), vec![3, 2, 1, 6, 5, 4, 9, 8, 7, 12, 11, 10]);
    let back = bgr.as_rgb();
    assert_eq!(back.get_planes()[0], data.as_slice());
    assert_eq!(back.get_size(), (2, 2));
}

#[test]
fn bgr_as_rgb_and_back_is_exact() {
    let data: Vec<u8> = vec![9, 8, 7, 6, 5, 4];
    let bgr = BgrImage::from_planes(2, 1, vec![data.clone()]).unwrap();
    let rgb = bgr.as_rgb();
    let back = rgb.as_bgr().unwrap();
    assert_eq!(back.get_planes()[0], data.as_slice());
}

#[test]
fn single_plane_sizes_are_validated() {
    assert!(RgbImage::from_planes(2, 2, vec![vec![0; 12]]).is_some());
    assert!(RgbImage::from_planes(2, 2, vec![vec![0; 11]]).is_none());
    assert!(RgbImage::from_planes(2, 2, vec![vec![0; 12], vec![0; 12]]).is_none());
    assert!(BgrImage::from_planes(3, 1, vec![vec![0; 9]]).is_some());
    assert!(BgrImage::from_planes(3, 1, vec![vec![0; 8]]).is_none());
    assert!(YuyvImage::from_planes(2, 2, vec![vec![0; 8]]).is_some());
    assert!(YuyvImage::from_planes(2, 2, vec![vec![0; 7]]).is_none());
}

#[test]
fn yuv420_size_violations_fail_construction() {
    // 4x2: Y = 8 bytes, U = V = 2 bytes.
    assert!(Yuv420Image::from_planes(4, 2, vec![vec![0; 8], vec![0; 2], vec![0; 2]]).is_some());
    assert!(Yuv420Image::from_planes(4, 2, vec![vec![0; 7], vec![0; 2], vec![0; 2]]).is_none());
    assert!(Yuv420Image::from_planes(4, 2, vec![vec![0; 8], vec![0; 3], vec![0; 2]]).is_none());
    assert!(Yuv420Image::from_planes(4, 2, vec![vec![0; 8], vec![0; 2], vec![0; 1]]).is_none());
    assert!(Yuv420Image::from_planes(4, 2, vec![vec![0; 8], vec![0; 2]]).is_none());
    // Enormous claimed sizes must fail cleanly, not overflow.
    assert!(Yuv420Image::from_planes(usize::MAX, usize::MAX, vec![vec![], vec![], vec![]])
        .is_none());
}

#[test]
fn nv12_size_violations_fail_construction() {
    // 4x2: Y = 8 bytes, UV = 4 bytes.
    assert!(Nv12Image::from_planes(4, 2, vec![vec![0; 8], vec![0; 4]]).is_some());
    assert!(Nv12Image::from_planes(4, 2, vec![vec![0; 8], vec![0; 3]]).is_none());
    assert!(Nv12Image::from_planes(4, 2, vec![vec![0; 9], vec![0; 4]]).is_none());
    assert!(Nv12Image::from_planes(4, 2, vec![vec![0; 8]]).is_none());
    assert!(Nv12Image::from_planes(usize::MAX, 2, vec![vec![], vec![]]).is_none());
}

#[test]
fn yuyv_converts_pairs_of_pixels() {
    // One Y' U Y' V group: two pixels sharing (u, v) = (200, 60).
    let img = YuyvImage::from_planes(2, 1, vec![vec![50, 200, 100, 60]]).unwrap();
    let bgr = img.as_bgr().unwrap();
    // yuv2rgb(50, 200, 60) = (0, 73, 174); yuv2rgb(100, 200, 60) = (50, 123, 224).
    let (r2, g2, b2) = yuv2rgb(100, 200, 60);
    assert_eq!(bgr.get_planes()[0].to_vec(), vec![174, 73, 0, b2, g2, r2]);
}

#[test]
fn yuv420_upsamples_chroma_nearest_neighbour() {
    // 2x2 image: one chroma cell shared by all four pixels.
    let y = vec![10, 20, 30, 40];
    let u = vec![200];
    let v = vec![60];
    let img = Yuv420Image::from_planes(2, 2, vec![y.clone(), u, v]).unwrap();
    let bgr = img.as_bgr().unwrap();
    let plane = bgr.get_planes()[0].to_vec();
    for (p, yv) in y.iter().enumerate() {
        let (r, g, b) = yuv2rgb(*yv, 200, 60);
        assert_eq!(&plane[3 * p..3 * p + 3], &[b, g, r]);
    }
}

#[test]
fn nv12_reads_interleaved_chroma() {
    let y = vec![10, 20, 30, 40];
    let uv = vec![200, 60];
    let img = Nv12Image::from_planes(2, 2, vec![y.clone(), uv]).unwrap();
    let bgr = img.as_bgr().unwrap();
    let plane = bgr.get_planes()[0].to_vec();
    for (p, yv) in y.iter().enumerate() {
        let (r, g, b) = yuv2rgb(*yv, 200, 60);
        assert_eq!(&plane[3 * p..3 * p + 3], &[b, g, r]);
    }
}

#[test]
fn odd_dimensions_cannot_convert_chroma_subsampled_images() {
    // 3x3 YUV 4:2:0 constructs (Y = 9, U = V = 1) but has no chroma sample
    // for the third column or row, so conversion reports failure.
    let img = Yuv420Image::from_planes(3, 3, vec![vec![0; 9], vec![0; 1], vec![0; 1]]).unwrap();
    assert!(img.as_bgr().is_none());
    let img = Nv12Image::from_planes(3, 3, vec![vec![0; 9], vec![0; 2]]).unwrap();
    assert!(img.as_bgr().is_none());
}

#[test]
fn multi_image_dispatches_conversion() {
    let rgb = RgbImage::from_planes(1, 1, vec![vec![7, 8, 9]]).unwrap();
    let multi = MultiImage::Rgb(rgb);
    assert_eq!(multi.get_size(), (1, 1));
    let bgr = multi.as_bgr().unwrap();
    assert_eq!(bgr.get_planes()[0].to_vec(), vec![9, 8, 7]);
}

#[test]
fn png_encoding_round_trips_through_a_real_decoder() {
    let pixels: Vec<u8> = vec![255, 0, 0, 0, 255, 0, 0, 0, 255, 10, 20, 30];
    let img = RgbImage::from_planes(2, 2, vec![pixels.clone()]).unwrap();
    let png = img.encode_png().unwrap();
    let decoded = image::load_from_memory_with_format(&png, image::ImageFormat::Png).unwrap();
    let rgb8 = decoded.to_rgb8();
    assert_eq!(rgb8.dimensions(), (2, 2));
    assert_eq!(rgb8.into_raw(), pixels);
    // The encoder rejects an empty image rather than inventing bytes.
    let empty = RgbImage::from_planes(0, 0, vec![vec![]]).unwrap();
    assert_eq!(empty.encode_png(), Err(LibcameraError::ImageError));
}

#[test]
fn jpeg_decoding_uses_a_real_decoder() {
    // Encode a small grey image as JPEG with the real encoder, then decode
    // it through the library.
    let pixels: Vec<u8> = vec![128; 8 * 8 * 3];
    let mut jpeg: Vec<u8> = Vec::new();
    let mut cursor = std::io::Cursor::new(&mut jpeg);
    image::write_buffer_with_format(
        &mut cursor,
        &pixels,
        8,
        8,
        image::ExtendedColorType::Rgb8,
        image::ImageFormat::Jpeg,
    )
    .unwrap();
    let decoded = RgbImage::decode_jpeg(&jpeg).unwrap();
    assert_eq!(decoded.get_size(), (8, 8));
    assert_eq!(decoded.get_planes()[0].len(), 8 * 8 * 3);
    // Bytes that do not decode at all are an image error.
    assert_eq!(RgbImage::decode_jpeg(&[0, 1, 2, 3]).err(), Some(LibcameraError::ImageError));
}

#[test]
fn jpeg_images_in_other_colour_formats_are_a_bad_format() {
    // A grayscale JPEG decodes fine, but not to 8-bit RGB.
    let pixels: Vec<u8> = vec![77; 8 * 8];
    let mut jpeg: Vec<u8> = Vec::new();
    let mut cursor = std::io::Cursor::new(&mut jpeg);
    image::write_buffer_with_format(
        &mut cursor,
        &pixels,
        8,
        8,
        image::ExtendedColorType::L8,
        image::ImageFormat::Jpeg,
    )
    .unwrap();
    assert_eq!(RgbImage::decode_jpeg(&jpeg).err(), Some(LibcameraError::BadImageFormat));
}
