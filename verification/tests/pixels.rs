use libscreenshot::pixels::{repack_rows, swap_channels};

#[test]
fn swap_exchanges_first_and_third_channel() {
    let mut buf = vec![0x10, 0x20, 0x30, 0xFF, 0x40, 0x50, 0x60, 0xFF];
    swap_channels(&mut buf, 4);
    assert_eq!(buf, vec![0x30, 0x20, 0x10, 0xFF, 0x60, 0x50, 0x40, 0xFF]);
}

#[test]
fn swap_three_byte_pixels() {
    let mut buf = vec![1, 2, 3, 4, 5, 6];
    swap_channels(&mut buf, 3);
    assert_eq!(buf, vec![3, 2, 1, 6, 5, 4]);
}

#[test]
fn swap_leaves_trailing_partial_pixel_untouched() {
    let mut buf = vec![1, 2, 3, 4, 5, 6];
    swap_channels(&mut buf, 4);
    assert_eq!(buf, vec![3, 2, 1, 4, 5, 6]);
}

#[test]
fn swap_empty_buffer() {
    let mut buf: Vec<u8> = Vec::new();
    swap_channels(&mut buf, 4);
    assert!(buf.is_empty());
}

#[test]
fn repack_drops_row_padding() {
    // two rows of stride 10 holding 8 payload bytes each
    let mut buf = Vec::new();
    for r in 0..2u8 {
        for j in 0..8u8 {
            buf.push(r * 100 + j);
        }
        buf.push(0xEE);
        buf.push(0xEF);
    }
    let out = repack_rows(&buf, 2, 2, 4, 10);
    assert_eq!(out.len(), 16);
    assert_eq!(&out[0..8], &[0, 1, 2, 3, 4, 5, 6, 7]);
    assert_eq!(&out[8..16], &[100, 101, 102, 103, 104, 105, 106, 107]);
}

#[test]
fn repack_without_padding_is_identity() {
    let buf = vec![1, 2, 3, 4, 5, 6, 7, 8];
    let out = repack_rows(&buf, 1, 2, 4, 4);
    assert_eq!(out, buf);
}

#[test]
fn repack_zero_rows() {
    let buf = vec![1, 2, 3, 4];
    let out = repack_rows(&buf, 1, 0, 4, 4);
    assert!(out.is_empty());
}
