//! The per-node layout payload at each stage of the pipeline, and the final
//! resolved rectangle.
use super::length_types::{Length, ShrunkLength};
use super::padding::Padding;
use vstd::prelude::*;

verus! {

/// The layout parameters of one node. `Width` and `Height` change type at
/// each pass boundary, so a node cannot be read in a partially resolved
/// state.
#[derive(Clone, Copy, Debug)]
pub struct LayoutTemplate<Width, Height> {
    // about the node itself
    pub width: Width,
    pub height: Height,
    // about its children
    pub padding: Padding,
    pub direction: LayoutDirection,
    pub spacing: u32,
}

/// How a node arranges its children: along a horizontal or vertical flow
/// axis, or overlaid at the same origin.
#[derive(Clone, Copy, Debug, PartialEq, Eq, Structural)]
pub enum LayoutDirection {
    Column,
    Row,
    Stack,
}

/// The unresolved stage, as authored by the view function.
pub type Layout = LayoutTemplate<Length, Length>;

/// After the shrink-width pass.
pub type ShrinkWidthLayout = LayoutTemplate<ShrunkLength, Length>;

/// After the grow-width pass: widths are absolute pixels.
pub type GrownWidthLayout = LayoutTemplate<u32, Length>;

/// After the shrink-height pass.
pub type ShrinkHeightLayout = LayoutTemplate<u32, ShrunkLength>;

/// After the grow-height pass: both axes are absolute pixels.
pub type GrownHeightLayout = LayoutTemplate<u32, u32>;

/// Summed padding as a (flow axis, cross axis) pair.
#[derive(Clone, Copy, Debug, PartialEq, Eq, Structural)]
pub struct FlowCross(pub u32, pub u32);

/// The horizontal padding (left plus right), clamped to `u32`.
pub open spec fn spec_padding_width(p: Padding) -> int {
    if p.left + p.right > u32::MAX {
        u32::MAX as int
    } else {
        p.left + p.right
    }
}

/// The vertical padding (top plus bottom), clamped to `u32`.
pub open spec fn spec_padding_height(p: Padding) -> int {
    if p.top + p.bottom > u32::MAX {
        u32::MAX as int
    } else {
        p.top + p.bottom
    }
}

impl<W, H> LayoutTemplate<W, H> {
    /// The node's summed padding, reordered so that the flow axis comes
    /// first and the cross axis second.
    pub fn summed_padding(&self) -> (r: FlowCross)
        ensures
            self.direction == LayoutDirection::Column ==> r == (FlowCross(
                spec_padding_height(self.padding) as u32,
                spec_padding_width(self.padding) as u32,
            )),
            self.direction != LayoutDirection::Column ==> r == (FlowCross(
                spec_padding_width(self.padding) as u32,
                spec_padding_height(self.padding) as u32,
            )),
    {
        let width = self.padding.left.saturating_add(self.padding.right);
        let height = self.padding.top.saturating_add(self.padding.bottom);
        match self.direction {
            LayoutDirection::Column => FlowCross(height, width),
            LayoutDirection::Row | LayoutDirection::Stack => FlowCross(width, height),
        }
    }
}

/// An absolute pixel rectangle: the output of the position pass, used for
/// drawing and hit-testing.
#[derive(Clone, Copy, Debug, PartialEq, Eq, Structural)]
pub struct CalculatedLayout {
    pub x: u32,
    pub y: u32,
    pub w: u32,
    pub h: u32,
}

impl CalculatedLayout {
    pub fn new(x: u32, y: u32, w: u32, h: u32) -> (r: Self)
        ensures
            r == (CalculatedLayout { x, y, w, h }),
    {
        Self { x, y, w, h }
    }

    /// Whether the given position lies inside this rectangle.
    pub open spec fn spec_contains(self, pos: (u32, u32)) -> bool {
        &&& pos.0 >= self.x
        &&& pos.0 < self.x + self.w
        &&& pos.1 >= self.y
        &&& pos.1 < self.y + self.h
    }

    pub fn contains(&self, pos: (u32, u32)) -> (r: bool)
        ensures
            r == self.spec_contains(pos),
    {
        pos.0 >= self.x && (pos.0 as u64) < (self.x as u64) + (self.w as u64) && pos.1 >= self.y
            && (pos.1 as u64) < (self.y as u64) + (self.h as u64)
    }
}

} // verus!
