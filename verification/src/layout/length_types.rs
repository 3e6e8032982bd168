//! Value types describing how one axis of a node's extent is determined.
use vstd::prelude::*;

verus! {

/// A node's sizing policy along one axis, before layout has run.
#[derive(Clone, Copy, Debug, PartialEq, Eq, Structural)]
pub enum Length {
    /// Consume all available leftover space, shared evenly among siblings.
    Grow,
    /// Fit exactly to the children's content.
    Shrink,
    /// Pin the axis to an explicit pixel value.
    Fixed(u32),
}

/// A node's sizing policy along one axis after the shrink pass: shrink-to-fit
/// policies have been resolved to fixed values, and growing nodes may carry a
/// minimum so a later pass cannot shrink them below content size.
#[derive(Clone, Copy, Debug, PartialEq, Eq, Structural)]
pub enum ShrunkLength {
    Grow,
    GrowWithMin(u32),
    Fixed(u32),
}

impl ShrunkLength {
    /// How much this child contributes to a shrink-to-fit parent: growing
    /// children contribute nothing (their real size is unknown yet) unless
    /// they carry a minimum.
    pub open spec fn contribution(self) -> int {
        match self {
            ShrunkLength::Grow => 0,
            ShrunkLength::GrowWithMin(m) => m as int,
            ShrunkLength::Fixed(l) => l as int,
        }
    }

    /// Whether this child takes a share of the leftover space.
    pub open spec fn is_growing(self) -> bool {
        match self {
            ShrunkLength::Grow => true,
            ShrunkLength::GrowWithMin(_) => true,
            ShrunkLength::Fixed(_) => false,
        }
    }
}

} // verus!
