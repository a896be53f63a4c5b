use argon::frame::{frame_encodable, layout_computable};
use argon::frame::{center_pixel_offset, image_len};
use argon::frame::{
    encode_frame, frame_source, CaptureGeometry, FrameLayout, FrameSource, FORMAT_RAW_RGBA,
    FRAME_HEADER_LEN,
};

fn ramp(n: usize) -> Vec<u8> {
    (0..n).map(|i| i as u8).collect()
}

#[test]
fn frame_is_header_then_half_size_rgba() {
    let raw = ramp(32);
    let frame = encode_frame(&raw, 4, 2, 16, 0x0102_0304).unwrap();
    assert_eq!(
        frame,
        vec![0, 4, 0, 2, 1, 0, 1, 2, 3, 4, 2, 1, 0, 255, 10, 9, 8, 255]
    );
}

#[test]
fn even_source_gives_quarter_pixel_count() {
    let (w, h, stride) = (8usize, 6usize, 40usize);
    let raw = ramp(stride * h);
    let frame = encode_frame(&raw, w, h, stride, 7).unwrap();
    assert_eq!(frame.len(), FRAME_HEADER_LEN + (w / 2) * (h / 2) * 4);
    assert_eq!(frame[4], FORMAT_RAW_RGBA);
    assert_eq!(frame[5], 0);
    // Second sampled row starts at source row 2: byte offset 80, pixel (R, G, B) = (82, 81, 80).
    let second_row = FRAME_HEADER_LEN + (w / 2) * 4;
    assert_eq!(&frame[second_row..second_row + 4], &[82, 81, 80, 255]);
}

#[test]
fn odd_sizes_drop_the_last_column_and_row() {
    // A 3 x 2 source gives a 1 x 1 image: (w/2) x (h/2) pixels.
    let raw = ramp(24);
    let frame = encode_frame(&raw, 3, 2, 12, 0).unwrap();
    assert_eq!(frame.len(), FRAME_HEADER_LEN + 4);
    assert_eq!(&frame[..4], &[0, 3, 0, 2]);
    assert_eq!(&frame[FRAME_HEADER_LEN..], &[2, 1, 0, 255]);
    // A 5 x 3 source gives a 2 x 1 image.
    let raw = ramp(60);
    let frame = encode_frame(&raw, 5, 3, 20, 0).unwrap();
    assert_eq!(&frame[FRAME_HEADER_LEN..], &[2, 1, 0, 255, 10, 9, 8, 255]);
}

#[test]
fn short_buffer_ends_rows_early() {
    let raw = ramp(20);
    let frame = encode_frame(&raw, 4, 4, 16, 0).unwrap();
    assert_eq!(&frame[FRAME_HEADER_LEN..], &[2, 1, 0, 255, 10, 9, 8, 255]);
}

#[test]
fn tiny_sources_give_no_frame() {
    let raw = ramp(64);
    assert_eq!(encode_frame(&raw, 1, 8, 4, 0), None);
    assert_eq!(encode_frame(&raw, 8, 1, 32, 0), None);
    assert_eq!(encode_frame(&raw, 0, 0, 0, 0), None);
}

#[test]
fn header_dimensions_are_truncated_to_16_bits() {
    let raw = ramp(8);
    let frame = encode_frame(&raw, 70000, 2, 0, 999).unwrap();
    assert_eq!(&frame[0..10], &[0x11, 0x70, 0, 2, 1, 0, 0, 0, 0x03, 0xe7]);
}

#[test]
fn layout_uses_video_size() {
    let mut g = CaptureGeometry::new();
    assert_eq!(g.frame_layout(7680), None);
    g.set_video_size(1920, 1080);
    assert_eq!(
        g.frame_layout(-7680),
        Some(FrameLayout { width: 1920, height: 1080, stride: 7680, needed: 1920 * 1080 * 4 })
    );
}

#[test]
fn layout_falls_back_to_stride_width() {
    let mut g = CaptureGeometry::new();
    g.set_video_size(0, 10);
    assert_eq!(
        g.frame_layout(400),
        Some(FrameLayout { width: 100, height: 10, stride: 400, needed: 4000 })
    );
    assert_eq!(g.frame_layout(0), None);
    g.set_video_size(0, 0);
    assert_eq!(g.frame_layout(400), None);
}

#[test]
fn source_choice() {
    assert_eq!(frame_source(Some(100), -1, 100), FrameSource::Mapped);
    assert_eq!(frame_source(Some(99), 3, 100), FrameSource::Skip);
    assert_eq!(frame_source(None, 3, 100), FrameSource::MapDescriptor);
    assert_eq!(frame_source(None, -1, 100), FrameSource::Skip);
}

#[test]
fn encodability_checks() {
    assert!(frame_encodable(100, 8, 8, 32));
    assert!(frame_encodable(0, 1, 1, usize::MAX));
    assert!(!frame_encodable(0, 8, 8, usize::MAX));
    assert!(!frame_encodable(0, usize::MAX, usize::MAX, 0));
    assert!(layout_computable(1920, 1080, 7680));
    assert!(layout_computable(0, 0, 0));
}

#[test]
fn probe_geometry() {
    assert_eq!(image_len(4, 3), 48);
    assert_eq!(image_len(0, 3), 0);
    // row 1 of a 4x3 image, column 2
    assert_eq!(center_pixel_offset(4, 3), (1 * 4 + 2) * 4);
    assert_eq!(center_pixel_offset(1, 1), 0);
}
