use vstd::prelude::*;
use crate::canonical::Image;
use crate::error::Error;
use crate::shared::area::Area;

verus! {

/// Capability: capture an arbitrary desktop-relative rectangle, not tied to
/// one window.
pub trait AreaCaptureProvider {
    fn capture_area(&self, area: Area) -> Result<Image, Error>;
}

} // verus!
