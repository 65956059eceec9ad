use vstd::prelude::*;
use crate::traits::Provider;

verus! {

/// A placeholder backend for the newer graphics-capture interface. It has
/// no capture path yet, so it implements none of the capability traits.
#[derive(Clone, Copy, Debug, PartialEq, Eq, Structural)]
pub struct GraphicsCaptureProvider;

impl GraphicsCaptureProvider {
    pub fn new() -> (p: GraphicsCaptureProvider)
        ensures
            p == GraphicsCaptureProvider,
    {
        GraphicsCaptureProvider
    }
}

impl Provider for GraphicsCaptureProvider {
    fn new() -> (p: GraphicsCaptureProvider) {
        GraphicsCaptureProvider
    }
}

} // verus!
