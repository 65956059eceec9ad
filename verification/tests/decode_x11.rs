use libscreenshot::canonical::Image;
use libscreenshot::error::Error;
use libscreenshot::platform::linux::x11_provider::{
    channel_offset, decode, encode, pixel_stride, resolve_window_rect, XImageData,
};

fn ximage(
    width: i32,
    height: i32,
    byte_order: i32,
    depth: i32,
    bytes_per_line: i32,
    bits_per_pixel: i32,
    masks: (u64, u64, u64),
    data: Vec<u8>,
) -> XImageData {
    XImageData {
        width,
        height,
        byte_order,
        depth,
        bytes_per_line,
        bits_per_pixel,
        red_mask: masks.0,
        green_mask: masks.1,
        blue_mask: masks.2,
        data,
    }
}

#[test]
fn channel_offsets_little_endian() {
    assert_eq!(channel_offset(0, 0xFF).unwrap(), 0);
    assert_eq!(channel_offset(0, 0xFF00).unwrap(), 1);
    assert_eq!(channel_offset(0, 0xFF0000).unwrap(), 2);
    assert_eq!(channel_offset(0, 0xFF000000).unwrap(), 3);
}

#[test]
fn channel_offsets_big_endian() {
    assert_eq!(channel_offset(1, 0xFF000000).unwrap(), 0);
    assert_eq!(channel_offset(1, 0xFF0000).unwrap(), 1);
    assert_eq!(channel_offset(1, 0xFF00).unwrap(), 2);
    assert_eq!(channel_offset(1, 0xFF).unwrap(), 3);
}

#[test]
fn channel_offset_ignores_high_mask_bits() {
    // only the low 32 bits of the native unsigned long take part
    assert_eq!(channel_offset(0, 0xFFFF_FFFF_0000_00FF).unwrap(), 0);
}

#[test]
fn channel_offset_rejects_partial_masks() {
    assert!(matches!(channel_offset(0, 0xF0), Err(Error::WindowCaptureFailed)));
    assert!(matches!(channel_offset(0, 0xFFFF), Err(Error::WindowCaptureFailed)));
    assert!(matches!(channel_offset(0, 0), Err(Error::WindowCaptureFailed)));
    assert!(matches!(channel_offset(2, 0xFF), Err(Error::WindowCaptureFailed)));
}

#[test]
fn pixel_stride_supported_pairs() {
    assert_eq!(pixel_stride(24, 24).unwrap(), 3);
    assert_eq!(pixel_stride(24, 32).unwrap(), 4);
    assert_eq!(pixel_stride(32, 32).unwrap(), 4);
}

#[test]
fn pixel_stride_unsupported_pairs() {
    assert!(matches!(pixel_stride(16, 16), Err(Error::WindowCaptureFailed)));
    assert!(matches!(pixel_stride(32, 24), Err(Error::WindowCaptureFailed)));
    assert!(matches!(pixel_stride(24, 16), Err(Error::WindowCaptureFailed)));
    assert!(matches!(pixel_stride(8, 8), Err(Error::WindowCaptureFailed)));
}

#[test]
fn decode_two_pixel_little_endian_window() {
    // a 2 by 1 window, depth 24, 32 bits per pixel, little-endian
    let img = ximage(
        2,
        1,
        0,
        24,
        8,
        32,
        (0x00FF0000, 0x0000FF00, 0x000000FF),
        vec![0x40, 0x00, 0x10, 0xAA, 0x00, 0x60, 0x00, 0xBB],
    );
    let out = decode(&img).unwrap();
    assert_eq!(out.width, 2);
    assert_eq!(out.height, 1);
    assert_eq!(out.data, vec![0x10, 0x00, 0x40, 0xFF, 0x00, 0x60, 0x00, 0xFF]);
}

#[test]
fn decode_depth24_forces_opaque_alpha() {
    // alpha lane holds junk; depth 24 must synthesize 0xFF anyway
    let img = ximage(
        1,
        1,
        0,
        24,
        4,
        32,
        (0x00FF0000, 0x0000FF00, 0x000000FF),
        vec![0x11, 0x22, 0x33, 0x99],
    );
    let out = decode(&img).unwrap();
    assert_eq!(out.data[3], 0xFF);
}

#[test]
fn decode_depth32_reads_alpha_lane() {
    let img = ximage(
        1,
        1,
        0,
        32,
        4,
        32,
        (0x00FF0000, 0x0000FF00, 0x000000FF),
        vec![0x11, 0x22, 0x33, 0x99],
    );
    let out = decode(&img).unwrap();
    assert_eq!(out.data, vec![0x33, 0x22, 0x11, 0x99]);
}

#[test]
fn decode_big_endian_window() {
    let img = ximage(
        1,
        1,
        1,
        32,
        4,
        32,
        (0x00FF0000, 0x0000FF00, 0x000000FF),
        vec![0x99, 0x11, 0x22, 0x33],
    );
    // big-endian: red at lane 1, green at lane 2, blue at lane 3, alpha at 0
    let out = decode(&img).unwrap();
    assert_eq!(out.data, vec![0x11, 0x22, 0x33, 0x99]);
}

#[test]
fn decode_three_byte_pixels() {
    let img = ximage(
        2,
        1,
        0,
        24,
        6,
        24,
        (0x00FF0000, 0x0000FF00, 0x000000FF),
        vec![0x01, 0x02, 0x03, 0x04, 0x05, 0x06],
    );
    let out = decode(&img).unwrap();
    assert_eq!(out.data, vec![0x03, 0x02, 0x01, 0xFF, 0x06, 0x05, 0x04, 0xFF]);
}

#[test]
fn decode_rejects_unsupported_depth_bpp() {
    let img = ximage(1, 1, 0, 16, 2, 16, (0xF800, 0x07E0, 0x001F), vec![0xAB, 0xCD]);
    assert!(matches!(decode(&img), Err(Error::WindowCaptureFailed)));
}

#[test]
fn decode_rejects_overlapping_masks() {
    // identical red and green masks leave no byte lane for a fourth channel
    let img = ximage(
        1,
        1,
        0,
        32,
        4,
        32,
        (0x00FF0000, 0x00FF0000, 0x000000FF),
        vec![1, 2, 3, 4],
    );
    assert!(matches!(decode(&img), Err(Error::WindowCaptureFailed)));
}

#[test]
fn decode_rejects_short_buffer() {
    let img = ximage(
        2,
        2,
        0,
        32,
        8,
        32,
        (0x00FF0000, 0x0000FF00, 0x000000FF),
        vec![0; 8],
    );
    assert!(matches!(decode(&img), Err(Error::WindowCaptureFailed)));
}

#[test]
fn decode_rejects_row_narrower_than_pixels() {
    let img = ximage(
        2,
        1,
        0,
        32,
        4,
        32,
        (0x00FF0000, 0x0000FF00, 0x000000FF),
        vec![0; 4],
    );
    assert!(matches!(decode(&img), Err(Error::WindowCaptureFailed)));
}

#[test]
fn round_trip_depth32_preserves_every_channel() {
    let source = Image::from_raw(
        2,
        2,
        vec![
            0x10, 0x20, 0x30, 0x40, 0x50, 0x60, 0x70, 0x80, 0x90, 0xA0, 0xB0, 0xC0, 0xD0, 0xE0,
            0xF0, 0x01,
        ],
    )
    .unwrap();
    let native = encode(&source, 0, 32, 32, 12, 0x00FF0000, 0x0000FF00, 0x000000FF);
    assert_eq!(native.bytes_per_line, 12);
    assert_eq!(native.data.len(), 24);
    let back = decode(&native).unwrap();
    assert_eq!(back.width, 2);
    assert_eq!(back.height, 2);
    assert_eq!(back.data, source.data);
}

#[test]
fn round_trip_depth24_forces_alpha() {
    let source = Image::from_raw(1, 2, vec![0x10, 0x20, 0x30, 0x44, 0x50, 0x60, 0x70, 0x55])
        .unwrap();
    let native = encode(&source, 1, 24, 32, 4, 0x00FF0000, 0x0000FF00, 0x000000FF);
    let back = decode(&native).unwrap();
    assert_eq!(
        back.data,
        vec![0x10, 0x20, 0x30, 0xFF, 0x50, 0x60, 0x70, 0xFF]
    );
}

#[test]
fn resolve_window_rect_translates_under_a_parent() {
    let r = resolve_window_rect(3, 4, 800, 600, 77, 103, 204);
    assert_eq!((r.x, r.y, r.w, r.h), (103, 204, 800, 600));
}

#[test]
fn resolve_window_rect_keeps_root_coordinates() {
    let r = resolve_window_rect(3, 4, 800, 600, 0, 103, 204);
    assert_eq!((r.x, r.y, r.w, r.h), (3, 4, 800, 600));
}
