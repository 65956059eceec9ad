use libscreenshot::error::Error;
use libscreenshot::platform::macos::cg_provider::{
    find_frontmost_window, normalize_screen_image, normalize_window_image, WindowInfo,
};

fn entry(pid: Option<i32>, number: Option<u32>) -> WindowInfo {
    WindowInfo { owner_pid: pid, window_number: number }
}

#[test]
fn frontmost_window_found_by_pid() {
    let windows = vec![
        entry(Some(10), Some(100)),
        entry(Some(20), Some(200)),
        entry(Some(30), Some(300)),
    ];
    assert_eq!(find_frontmost_window(&windows, 20).unwrap(), 200);
}

#[test]
fn frontmost_window_takes_the_last_match() {
    let windows = vec![
        entry(Some(10), Some(100)),
        entry(Some(10), Some(200)),
        entry(Some(99), Some(900)),
    ];
    assert_eq!(find_frontmost_window(&windows, 10).unwrap(), 200);
}

#[test]
fn frontmost_window_skips_the_final_entry() {
    // only the last list entry matches, and the scan never reads it
    let windows = vec![entry(Some(1), Some(100)), entry(Some(10), Some(200))];
    let r = find_frontmost_window(&windows, 10);
    assert!(matches!(r, Err(Error::WindowCaptureFailed)));
}

#[test]
fn frontmost_window_without_any_match() {
    let windows = vec![
        entry(Some(1), Some(100)),
        entry(None, Some(200)),
        entry(Some(3), Some(300)),
    ];
    let r = find_frontmost_window(&windows, 42);
    assert!(matches!(r, Err(Error::WindowCaptureFailed)));
}

#[test]
fn frontmost_window_with_missing_number() {
    let windows = vec![entry(Some(10), None), entry(Some(99), Some(900))];
    let r = find_frontmost_window(&windows, 10);
    assert!(matches!(r, Err(Error::WindowCaptureFailed)));
}

#[test]
fn frontmost_window_on_empty_list() {
    let windows: Vec<WindowInfo> = Vec::new();
    let r = find_frontmost_window(&windows, 10);
    assert!(matches!(r, Err(Error::WindowCaptureFailed)));
}

#[test]
fn window_image_swaps_and_drops_stride_padding() {
    // 1 by 2 pixels, four bytes each, rows padded to eight bytes
    let data = vec![
        0x10, 0x20, 0x30, 0xFF, 0xAA, 0xBB, 0xCC, 0xDD, 0x40, 0x50, 0x60, 0xFF, 0x01, 0x02, 0x03,
        0x04,
    ];
    let img = normalize_window_image(1, 2, 4, 8, data).unwrap();
    assert_eq!(img.width, 1);
    assert_eq!(img.height, 2);
    assert_eq!(
        img.data,
        vec![0x30, 0x20, 0x10, 0xFF, 0x60, 0x50, 0x40, 0xFF]
    );
}

#[test]
fn window_image_rejects_non_rgba_pixel_width() {
    let data = vec![0; 12];
    let r = normalize_window_image(2, 2, 3, 6, data);
    assert!(matches!(r, Err(Error::WindowCaptureFailed)));
}

#[test]
fn screen_image_swaps_channels_in_place() {
    let img = normalize_screen_image(1, 1, vec![0x01, 0x02, 0x03, 0x04]).unwrap();
    assert_eq!(img.data, vec![0x03, 0x02, 0x01, 0x04]);
}

#[test]
fn screen_image_rejects_mismatched_buffer() {
    let r = normalize_screen_image(2, 2, vec![0; 8]);
    assert!(matches!(r, Err(Error::WindowCaptureFailed)));
}
