use vstd::prelude::*;

verus! {

/// An opaque numeric handle identifying a physical display.
pub type ScreenId = u64;

} // verus!
