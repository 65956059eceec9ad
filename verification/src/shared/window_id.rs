use vstd::prelude::*;

verus! {

/// An opaque numeric handle identifying a single on-screen window, wide
/// enough for a native window handle on every target platform. It is
/// meaningful only within the process and session that obtained it.
pub type WindowId = u64;

} // verus!
