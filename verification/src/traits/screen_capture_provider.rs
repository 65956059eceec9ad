use vstd::prelude::*;
use crate::canonical::Image;
use crate::error::Error;
use crate::shared::screen_id::ScreenId;

verus! {

/// Capability: capture one physical display, or the current one, as a
/// canonical image.
pub trait ScreenCaptureProvider {
    fn capture_screen(&self, screen_id: ScreenId) -> Result<Image, Error>;

    fn capture_current_screen(&self) -> Result<Image, Error>;
}

} // verus!
