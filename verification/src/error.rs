use vstd::prelude::*;

verus! {

/// The two failure kinds that cross the library boundary: a coordinate that
/// does not fit a backend's native integer width, and a generic capture
/// failure covering every native query, allocation or decoding problem.
/// A capture call either returns a fully valid canonical image or fails
/// with one of these; no partial image is ever produced.
#[derive(Clone, Copy, Debug, PartialEq, Eq, Structural)]
pub enum Error {
    AreaIntConversionError,
    WindowCaptureFailed,
}

impl Error {
    /// A human-readable description of the failure.
    pub fn message(&self) -> (m: &'static str)
        ensures
            *self is AreaIntConversionError ==> m@ == "area coordinate out of range"@,
            *self is WindowCaptureFailed ==> m@ == "window capture failed"@,
    {
        match self {
            Error::AreaIntConversionError => "area coordinate out of range",
            Error::WindowCaptureFailed => "window capture failed",
        }
    }
}

} // verus!
