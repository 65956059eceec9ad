use vstd::prelude::*;
use crate::canonical::Image;
use crate::error::Error;
use crate::shared::area::Area;
use crate::shared::window_id::WindowId;

verus! {

/// Capability: capture the client area of a single window, or of the
/// currently focused window, optionally restricted to a sub-area. A call
/// either returns a fully decoded canonical image or fails; the drivers
/// that implement this over native APIs release every native handle they
/// acquire before returning, on success and on every error path.
pub trait WindowCaptureProvider {
    fn capture_window(&self, window_id: WindowId) -> Result<Image, Error>;

    fn capture_window_area(&self, window_id: WindowId, area: Area) -> Result<Image, Error>;

    fn capture_focused_window(&self) -> Result<Image, Error>;

    fn capture_focused_window_area(&self, area: Area) -> Result<Image, Error>;
}

} // verus!
