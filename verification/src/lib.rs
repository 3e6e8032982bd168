//! A pixel-framebuffer UI toolkit: a declarative widget tree is rebuilt every
//! frame, sized by a constraint-based layout pipeline, rasterized into a pixel
//! buffer, and hit-tested against pointer input to produce messages.
use vstd::prelude::*;

pub mod buffer;
pub mod button;
pub mod element;
pub mod font;
pub mod image;
pub mod layout;
pub mod mouse_area;
pub mod palette;
pub mod quad;
pub mod slider;
pub mod state_tree;
pub mod text;
pub mod tree;
pub mod widget;

verus! {

/// Holds all of the current frame's input state.
#[derive(Clone, Copy, Debug)]
pub struct Input {
    /// The primary pointer button was released on this frame.
    pub mouse_released: bool,
    /// The primary pointer button is currently held down.
    pub mouse_down: bool,
    /// Pointer position in buffer pixels; `None` when the pointer left the surface.
    pub mouse_pos: Option<(u32, u32)>,
    /// The previous frame's pointer position, used to detect exit transitions.
    pub prev_mouse_pos: Option<(u32, u32)>,
}

} // verus!
