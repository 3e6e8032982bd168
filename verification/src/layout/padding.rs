//! A node's padding box: four non-negative pixel distances.
use vstd::prelude::*;

verus! {

#[derive(Clone, Copy, Debug, PartialEq, Eq, Structural)]
pub struct Padding {
    pub top: u32,
    pub right: u32,
    pub bottom: u32,
    pub left: u32,
}

impl Padding {
    /// Padding with all four sides zero.
    pub fn zero() -> (r: Padding)
        ensures
            r == (Padding { top: 0, right: 0, bottom: 0, left: 0 }),
    {
        Padding { top: 0, right: 0, bottom: 0, left: 0 }
    }

    /// Padding from a symmetric pair: vertical (top and bottom), then
    /// horizontal (right and left).
    pub fn symmetric(vertical: u32, horizontal: u32) -> (r: Padding)
        ensures
            r == (Padding {
                top: vertical,
                right: horizontal,
                bottom: vertical,
                left: horizontal,
            }),
    {
        Padding { top: vertical, right: horizontal, bottom: vertical, left: horizontal }
    }

    /// Padding from all four values in top, right, bottom, left order.
    pub fn each(top: u32, right: u32, bottom: u32, left: u32) -> (r: Padding)
        ensures
            r == (Padding { top, right, bottom, left }),
    {
        Padding { top, right, bottom, left }
    }
}

impl From<u32> for Padding {
    /// Uniform padding on all four sides.
    fn from(value: u32) -> (r: Padding)
        ensures
            r == (Padding { top: value, right: value, bottom: value, left: value }),
    {
        Padding { top: value, right: value, bottom: value, left: value }
    }
}

impl vstd::std_specs::convert::FromSpecImpl<u32> for Padding {
    open spec fn obeys_from_spec() -> bool {
        true
    }

    open spec fn from_spec(value: u32) -> Padding {
        Padding { top: value, right: value, bottom: value, left: value }
    }
}

} // verus!
