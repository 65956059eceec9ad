//! Captures pixel data from on-screen windows, displays, or regions and
//! normalizes every native framebuffer layout into a single canonical
//! 8-bit RGBA, row-major, unpadded image representation.
//!
//! The capture backends are split per platform. Each backend's native calls
//! sit behind a thin driver; the decoding of the native pixel layout
//! (channel masks, byte order, bit depth, row stride) into the canonical
//! image is done here, with contracts pinning down every output byte.

pub mod error;
pub mod canonical;
pub mod imagebuffer;
pub mod pixels;
pub mod platform;
pub mod shared;
pub mod traits;

pub use canonical::Image;
pub use error::Error;
pub use shared::Area;
pub use shared::GenericArea;
pub use shared::ScreenId;
pub use shared::WindowId;
pub use traits::AreaCaptureProvider;
pub use traits::FullCaptureProvider;
pub use traits::Provider;
pub use traits::ScreenCaptureProvider;
pub use traits::WindowCaptureProvider;

use platform::linux::X11Provider;
use vstd::prelude::*;

verus! {

/// The capture backend selected for this build target: the X11 provider.
pub fn get_capture_provider() -> (r: Option<X11Provider>)
    ensures
        r is Some,
{
    Some(X11Provider)
}

} // verus!
