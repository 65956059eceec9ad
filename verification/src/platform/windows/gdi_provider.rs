use vstd::prelude::*;
use crate::canonical::Image;
use crate::error::Error;
use crate::pixels::{swap_channels, swapped_channels};
use crate::shared::area::Area;
use crate::shared::generic_area::{area_fits_i32, GenericArea};
use crate::traits::Provider;

verus! {

/// The device-independent bitmap header the pixel extraction hands to the
/// native call, modeled with its native field layout. A negative height
/// requests top-down row order.
#[derive(Clone, Copy, Debug, PartialEq, Eq, Structural)]
pub struct BitmapInfoHeader {
    pub size: u32,
    pub width: i32,
    pub height: i32,
    pub planes: u16,
    pub bit_count: u16,
    pub compression: u32,
    pub size_image: u32,
    pub x_pels_per_meter: i32,
    pub y_pels_per_meter: i32,
    pub clr_used: u32,
    pub clr_important: u32,
}

/// The bitmap description built around the header; the optional color
/// table is never used by a 32-bit extraction.
#[derive(Clone, Copy, Debug, PartialEq, Eq, Structural)]
pub struct BitmapInfo {
    pub header: BitmapInfoHeader,
}

/// Builds the native calls of the pixel-extraction path; the capture
/// sequencing around them is stated by the outcome model below.
pub struct GdiHelper;

impl GdiHelper {
    /// Describes a `width` by `height`, 32-bit, uncompressed bitmap. The
    /// height is negated so the extraction returns rows top-down, and the
    /// header's own size field holds the native header byte size.
    pub fn create_bitmap_info(w: i32, h: i32) -> (r: BitmapInfo)
        requires
            0 <= w,
            0 <= h,
            4 * w * h <= u32::MAX,
        ensures
            r.header.size == 40,
            r.header.width == w,
            r.header.height == -h,
            r.header.planes == 1,
            r.header.bit_count == 32,
            r.header.compression == 0,
            r.header.size_image == 4 * w * h,
            r.header.x_pels_per_meter == 0,
            r.header.y_pels_per_meter == 0,
            r.header.clr_used == 0,
            r.header.clr_important == 0,
    {
        proof {
            assert(4 * w * h >= 4 * w * 0) by (nonlinear_arith)
                requires
                    0 <= w,
                    0 <= h,
            ;
        }
        let size_image: u32 = (4 * (w as i64) * (h as i64)) as u32;
        BitmapInfo {
            header: BitmapInfoHeader {
                size: 40,
                width: w,
                height: -h,
                planes: 1,
                bit_count: 32,
                compression: 0,
                size_image,
                x_pels_per_meter: 0,
                y_pels_per_meter: 0,
                clr_used: 0,
                clr_important: 0,
            },
        }
    }
}

/// The native handles a window capture acquires: the window's device
/// context, the compatible off-screen context, and the bitmap selected
/// into it.
#[derive(Clone, Copy, Debug, PartialEq, Eq, Structural)]
pub enum GdiHandle {
    WindowDc,
    MemoryDc,
    Bitmap,
}

/// Whether each native call of one window capture succeeded, in call
/// order. Later calls are never made once an earlier one fails.
#[derive(Clone, Copy, Debug, PartialEq, Eq, Structural)]
pub struct GdiCallOutcomes {
    pub get_dc: bool,
    pub get_client_rect: bool,
    pub create_compatible_dc: bool,
    pub create_compatible_bitmap: bool,
    pub select_object: bool,
    pub print_window: bool,
    pub get_di_bits: bool,
}

impl GdiCallOutcomes {
    pub open spec fn all_succeed(self) -> bool {
        &&& self.get_dc
        &&& self.get_client_rect
        &&& self.create_compatible_dc
        &&& self.create_compatible_bitmap
        &&& self.select_object
        &&& self.print_window
        &&& self.get_di_bits
    }
}

/// Whether the capture with outcomes `o` ever acquired handle `h`: each
/// handle exists once every call before and including its acquiring call
/// succeeded.
pub open spec fn acquired(o: GdiCallOutcomes, h: GdiHandle) -> bool {
    match h {
        GdiHandle::WindowDc => o.get_dc,
        GdiHandle::MemoryDc => o.get_dc && o.get_client_rect && o.create_compatible_dc,
        GdiHandle::Bitmap => o.get_dc && o.get_client_rect && o.create_compatible_dc
            && o.create_compatible_bitmap,
    }
}

/// The handles a capture with outcomes `o` releases before returning, in
/// release order: exactly the acquired ones, whether the capture succeeds
/// or stops at the failed call.
pub open spec fn release_plan(o: GdiCallOutcomes) -> Seq<GdiHandle> {
    if !o.get_dc {
        seq![]
    } else if !o.get_client_rect || !o.create_compatible_dc {
        seq![GdiHandle::WindowDc]
    } else if !o.create_compatible_bitmap {
        seq![GdiHandle::MemoryDc, GdiHandle::WindowDc]
    } else {
        seq![GdiHandle::MemoryDc, GdiHandle::Bitmap, GdiHandle::WindowDc]
    }
}

/// The sequencing decisions of one window capture over the outcomes of its
/// native calls: whether the capture succeeds, and which handles to
/// release, in order, before returning. Capture succeeds exactly when
/// every native call does; on any failure the error is the capture
/// failure, never a partial result.
pub fn capture_window_sequence(o: &GdiCallOutcomes) -> (r: (Result<(), Error>, Vec<GdiHandle>))
    ensures
        r.0 is Ok <==> o.all_succeed(),
        r.0 matches Err(e) ==> e == Error::WindowCaptureFailed,
        r.1@ == release_plan(*o),
{
    let mut releases: Vec<GdiHandle> = Vec::new();
    if !o.get_dc {
        return (Err(Error::WindowCaptureFailed), releases);
    }
    if !o.get_client_rect {
        releases.push(GdiHandle::WindowDc);
        proof {
            assert(releases@ =~= release_plan(*o));
        }
        return (Err(Error::WindowCaptureFailed), releases);
    }
    if !o.create_compatible_dc {
        releases.push(GdiHandle::WindowDc);
        proof {
            assert(releases@ =~= release_plan(*o));
        }
        return (Err(Error::WindowCaptureFailed), releases);
    }
    if !o.create_compatible_bitmap {
        releases.push(GdiHandle::MemoryDc);
        releases.push(GdiHandle::WindowDc);
        proof {
            assert(releases@ =~= release_plan(*o));
        }
        return (Err(Error::WindowCaptureFailed), releases);
    }
    releases.push(GdiHandle::MemoryDc);
    releases.push(GdiHandle::Bitmap);
    releases.push(GdiHandle::WindowDc);
    proof {
        assert(releases@ =~= release_plan(*o));
    }
    if !o.select_object || !o.print_window || !o.get_di_bits {
        return (Err(Error::WindowCaptureFailed), releases);
    }
    (Ok(()), releases)
}

/// The sequencing decisions of a capture of an explicit window area: the
/// requested area must first fit the native 32-bit coordinate widths, and
/// that check happens before any handle is acquired, so a rejected area
/// releases nothing. The native calls then run as for a whole window,
/// except that no client-rectangle query is needed.
pub fn capture_window_area_sequence(area: &Area, o: &GdiCallOutcomes) -> (r: (
    Result<(), Error>,
    Vec<GdiHandle>,
))
    ensures
        !area_fits_i32(*area) ==> r.0 == Err::<(), Error>(Error::AreaIntConversionError)
            && r.1@ == Seq::<GdiHandle>::empty(),
        area_fits_i32(*area) ==> {
            let eff = GdiCallOutcomes { get_client_rect: true, ..*o };
            &&& (r.0 is Ok <==> eff.all_succeed())
            &&& (r.0 matches Err(e) ==> e == Error::WindowCaptureFailed)
            &&& r.1@ == release_plan(eff)
        },
{
    match GenericArea::<i32, i32>::try_from_area(area) {
        Err(e) => (Err(e), Vec::new()),
        Ok(_) => {
            let eff = GdiCallOutcomes { get_client_rect: true, ..*o };
            capture_window_sequence(&eff)
        },
    }
}

/// Resource safety of the capture sequence: whichever call fails, the
/// release plan names every handle acquired up to that point exactly once,
/// no unacquired handle, and no handle twice.
pub proof fn lemma_release_exactly_acquired(o: GdiCallOutcomes)
    ensures
        forall|h: GdiHandle| #[trigger] release_plan(o).contains(h) <==> acquired(o, h),
        forall|i: int, j: int|
            0 <= i < j < release_plan(o).len() ==> release_plan(o)[i] != release_plan(o)[j],
{
    let plan = release_plan(o);
    assert forall|h: GdiHandle| #[trigger] plan.contains(h) <==> acquired(o, h) by {
        if acquired(o, h) {
            match h {
                GdiHandle::WindowDc => {
                    assert(plan[plan.len() - 1] == GdiHandle::WindowDc);
                },
                GdiHandle::MemoryDc => {
                    assert(plan[0] == GdiHandle::MemoryDc);
                },
                GdiHandle::Bitmap => {
                    assert(plan[1] == GdiHandle::Bitmap);
                },
            }
        }
    }
}

/// Normalizes the bytes the 32-bit top-down extraction produced: BGRA in
/// row-major order with no padding. Swaps channels to RGBA in place and
/// builds the canonical image; a buffer that does not match the requested
/// dimensions fails.
pub fn finish_capture(w: i32, h: i32, buf: Vec<u8>) -> (r: Result<Image, Error>)
    requires
        0 <= w,
        0 <= h,
    ensures
        match r {
            Ok(img) => {
                &&& buf@.len() == w * h * 4
                &&& img.width == w as u32
                &&& img.height == h as u32
                &&& img.wf()
                &&& img.data@ == swapped_channels(buf@, 4)
            },
            Err(e) => {
                &&& buf@.len() != w * h * 4
                &&& e == Error::WindowCaptureFailed
            },
        },
{
    let mut pixels = buf;
    swap_channels(&mut pixels, 4);
    Image::from_raw(w as u32, h as u32, pixels)
}

/// The Windows backend: asks a window to render its client area into an
/// off-screen bitmap and extracts the pixels as a top-down 32-bit image.
#[derive(Clone, Copy, Debug, PartialEq, Eq, Structural)]
pub struct GdiProvider;

impl Provider for GdiProvider {
    fn new() -> (p: GdiProvider) {
        GdiProvider
    }
}

} // verus!
