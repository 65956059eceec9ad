use vstd::prelude::*;
use crate::traits::Provider;

verus! {

/// The placeholder backend for platforms without a native capture path.
/// It satisfies the provider contract but offers no capture capability:
/// absence of a capability is expressed by not implementing its trait.
#[derive(Clone, Copy, Debug, PartialEq, Eq, Structural)]
pub struct DummyProvider;

impl DummyProvider {
    pub fn new() -> (p: DummyProvider)
        ensures
            p == DummyProvider,
    {
        DummyProvider
    }
}

impl Provider for DummyProvider {
    fn new() -> (p: DummyProvider) {
        DummyProvider
    }
}

} // verus!
