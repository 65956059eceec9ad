use vstd::prelude::*;
use crate::canonical::Image;
use crate::error::Error;

verus! {

/// Capability: capture the entire desktop across all displays.
pub trait FullCaptureProvider {
    fn capture_full(&self) -> Result<Image, Error>;
}

} // verus!
