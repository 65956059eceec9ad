pub mod area_capture_provider;
pub mod full_capture_provider;
pub mod screen_capture_provider;
pub mod window_capture_provider;

pub use self::area_capture_provider::AreaCaptureProvider;
pub use self::full_capture_provider::FullCaptureProvider;
pub use self::screen_capture_provider::ScreenCaptureProvider;
pub use self::window_capture_provider::WindowCaptureProvider;

use vstd::prelude::*;

verus! {

/// Every capture backend can be constructed without arguments; which of the
/// capture capabilities it offers is expressed by the capability traits it
/// implements.
pub trait Provider where Self: Sized {
    fn new() -> Self;
}

} // verus!
