//! Color definitions shared by the drawing code. A color is four RGBA bytes,
//! matching the pixel buffer's layout.
use vstd::prelude::*;

verus! {

/// One RGBA pixel value.
pub type Color = [u8; 4];

pub const BLUE_LIGHT: Color = [99, 155, 255, 255];

pub const BLUE_DARK: Color = [48, 96, 130, 255];

pub const RED_LIGHT: Color = [217, 87, 99, 255];

pub const RED_DARK: Color = [172, 50, 50, 255];

pub const MAIN_LIGHT: Color = [203, 219, 252, 255];

pub const MAIN_DARK: Color = [69, 40, 60, 255];

/// The palette entry for a small color index, wrapping around past the end.
pub open spec fn spec_color_from_index(index: int) -> Color {
    let i = index % 6;
    if i == 0 {
        MAIN_DARK
    } else if i == 1 {
        MAIN_LIGHT
    } else if i == 2 {
        BLUE_LIGHT
    } else if i == 3 {
        BLUE_DARK
    } else if i == 4 {
        RED_LIGHT
    } else {
        RED_DARK
    }
}

/// Looks up a palette color by index; indices past the palette wrap around.
pub fn color_from_index(index: usize) -> (r: Color)
    ensures
        r == spec_color_from_index(index as int),
{
    let i = index % 6;
    if i == 0 {
        MAIN_DARK
    } else if i == 1 {
        MAIN_LIGHT
    } else if i == 2 {
        BLUE_LIGHT
    } else if i == 3 {
        BLUE_DARK
    } else if i == 4 {
        RED_LIGHT
    } else {
        RED_DARK
    }
}

} // verus!
