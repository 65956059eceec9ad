use vstd::prelude::*;

verus! {

/// An axis-aligned rectangle in desktop or window coordinates. The origin
/// may be negative on multi-monitor layouts.
#[derive(Clone, Copy, Debug, PartialEq, Eq, Structural)]
pub struct Area {
    pub x: i64,
    pub y: i64,
    pub width: u64,
    pub height: u64,
}

impl Area {
    pub fn new(x: i64, y: i64, width: u64, height: u64) -> (a: Area)
        ensures
            a == (Area { x, y, width, height }),
    {
        Area { x, y, width, height }
    }
}

} // verus!
