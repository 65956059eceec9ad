use vstd::prelude::*;
use crate::canonical::Image;
use crate::error::Error;
use crate::pixels::{repack_rows, repacked_rows, swap_channels, swapped_channels};
use crate::traits::Provider;

verus! {

/// The macOS backend: captures windows and displays through the
/// compositor's window-image interface and normalizes the returned BGRA
/// buffers, whose row stride may exceed the pixel row width, into the
/// canonical image.
#[derive(Clone, Copy, Debug, PartialEq, Eq, Structural)]
pub struct CGProvider;

impl Provider for CGProvider {
    fn new() -> (p: CGProvider) {
        CGProvider
    }
}

/// What the focused-window scan reads from one entry of the on-screen
/// window list: the owning process id and the window number, each absent
/// when the entry lacks that key or holds a non-numeric value.
#[derive(Clone, Copy, Debug)]
pub struct WindowInfo {
    pub owner_pid: Option<i32>,
    pub window_number: Option<u32>,
}

/// The index of the last entry in the first `n` list entries whose owning
/// process id is `pid`.
pub open spec fn last_pid_match(ws: Seq<WindowInfo>, pid: i32, n: int) -> Option<int>
    decreases n,
{
    if n <= 0 {
        None
    } else if ws[n - 1].owner_pid == Some(pid) {
        Some(n - 1)
    } else {
        last_pid_match(ws, pid, n - 1)
    }
}

/// How far the focused-window scan looks: all entries but the final one.
pub open spec fn scan_end(ws: Seq<WindowInfo>) -> int {
    if ws.len() == 0 {
        0
    } else {
        ws.len() - 1
    }
}

/// Finds the window of the frontmost application: scans the on-screen
/// window list, excluding its final entry, for entries owned by
/// `active_pid`, and returns the window number of the last such entry.
/// Fails when no entry matches or the matching entry has no usable window
/// number.
pub fn find_frontmost_window(windows: &Vec<WindowInfo>, active_pid: i32) -> (r: Result<u32, Error>)
    ensures
        match r {
            Ok(wid) => last_pid_match(windows@, active_pid, scan_end(windows@)) matches Some(m)
                && windows@[m].window_number == Some(wid),
            Err(e) => {
                &&& e == Error::WindowCaptureFailed
                &&& match last_pid_match(windows@, active_pid, scan_end(windows@)) {
                    Some(m) => windows@[m].window_number is None,
                    None => true,
                }
            },
        },
{
    let count: usize = windows.len();
    let end: usize = if count == 0 {
        0
    } else {
        count - 1
    };
    let mut matching: Option<usize> = None;
    let mut i: usize = 0;
    #[verifier::loop_isolation(false)]
    while i < end
        invariant
            i <= end,
            match matching {
                Some(m) => m < i && last_pid_match(windows@, active_pid, i as int) == Some(
                    m as int,
                ),
                None => last_pid_match(windows@, active_pid, i as int) is None,
            },
        decreases end - i,
    {
        let matches_pid: bool = match windows[i].owner_pid {
            Some(p) => p == active_pid,
            None => false,
        };
        if matches_pid {
            matching = Some(i);
        }
        i = i + 1;
    }
    match matching {
        Some(m) => {
            match windows[m].window_number {
                Some(wid) => Ok(wid),
                None => Err(Error::WindowCaptureFailed),
            }
        },
        None => Err(Error::WindowCaptureFailed),
    }
}

/// Normalizes a window image as the compositor returns it: BGRA pixels of
/// `bpp` bytes and rows of `bytes_per_row` bytes, possibly wider than the
/// pixel data. Channel-swaps to RGBA, repacks the rows contiguously, and
/// builds the canonical image; a pixel layout that is not four bytes wide
/// cannot become canonical and fails.
pub fn normalize_window_image(
    width: usize,
    height: usize,
    bpp: usize,
    bytes_per_row: usize,
    data: Vec<u8>,
) -> (r: Result<Image, Error>)
    requires
        3 <= bpp,
        width * bpp <= bytes_per_row,
        height * bytes_per_row <= data@.len(),
        width <= u32::MAX,
        height <= u32::MAX,
    ensures
        match r {
            Ok(img) => {
                &&& width * height == 0 || bpp == 4
                &&& img.width == width as u32
                &&& img.height == height as u32
                &&& img.wf()
                &&& img.data@ == repacked_rows(
                    swapped_channels(data@, bpp as int),
                    (width * bpp) as int,
                    bytes_per_row as int,
                    height as int,
                )
            },
            Err(e) => {
                &&& !(width * height == 0 || bpp == 4)
                &&& e == Error::WindowCaptureFailed
            },
        },
{
    let mut buf = data;
    swap_channels(&mut buf, bpp);
    let packed = repack_rows(&buf, width, height, bpp, bytes_per_row);
    proof {
        assert(height * (width * bpp) == width * height * bpp) by (nonlinear_arith);
        if width * height == 0 {
            assert(width * height * bpp == 0) by (nonlinear_arith)
                requires
                    width * height == 0,
            ;
            assert(width * height * 4 == 0) by (nonlinear_arith)
                requires
                    width * height == 0,
            ;
        } else {
            if bpp == 4 {
                assert(width * height * bpp == width * height * 4);
            } else {
                assert(width * height * bpp != width * height * 4) by (nonlinear_arith)
                    requires
                        width * height != 0,
                        width * height >= 0,
                        bpp != 4,
                ;
            }
        }
    }
    Image::from_raw(width as u32, height as u32, packed)
}

/// Normalizes a display image: the compositor hands displays back as
/// tightly packed four-byte BGRA, so only the channel swap is needed
/// before the canonical image is built. Fails when the buffer does not
/// match the dimensions.
pub fn normalize_screen_image(width: usize, height: usize, data: Vec<u8>) -> (r: Result<
    Image,
    Error,
>)
    requires
        width <= u32::MAX,
        height <= u32::MAX,
    ensures
        match r {
            Ok(img) => {
                &&& data@.len() == width * height * 4
                &&& img.width == width as u32
                &&& img.height == height as u32
                &&& img.wf()
                &&& img.data@ == swapped_channels(data@, 4)
            },
            Err(e) => {
                &&& data@.len() != width * height * 4
                &&& e == Error::WindowCaptureFailed
            },
        },
{
    let mut buf = data;
    swap_channels(&mut buf, 4);
    Image::from_raw(width as u32, height as u32, buf)
}

} // verus!
