//! A rectangle widget: an optional fill and an optional border, drawn into
//! its resolved region. It never produces messages.
use crate::buffer::pixel_in_bounds;
use crate::buffer::spec_pixel_index;
use crate::buffer::Buffer;
use crate::element::Element;
use crate::element::Emitted;
use crate::layout::CalculatedLayout;
use crate::palette::Color;
use crate::state_tree::State;
use crate::Input;
use vstd::prelude::*;

verus! {

#[derive(Clone, Copy, Debug)]
pub struct QuadStyle {
    pub fill_style: Option<Color>,
    pub border_style: Option<BorderStyle>,
}

#[derive(Clone, Copy, Debug)]
pub struct BorderStyle {
    pub color: Color,
    pub thickness: u32,
}

#[derive(Clone, Copy, Debug)]
pub struct Quad {
    pub style: QuadStyle,
}

impl Quad {
    pub fn new() -> (r: Self)
        ensures
            r.style.fill_style is None,
            r.style.border_style is None,
    {
        Self { style: QuadStyle { fill_style: None, border_style: None } }
    }

    pub fn fill(self, color: Color) -> (r: Self)
        ensures
            r.style.fill_style == Some(color),
            r.style.border_style == self.style.border_style,
    {
        Self { style: QuadStyle { fill_style: Some(color), border_style: self.style.border_style } }
    }

    pub fn style(self, style: QuadStyle) -> (r: Self)
        ensures
            r.style == style,
    {
        Self { style }
    }

    /// Sets the border color, keeping an existing border's thickness and
    /// giving a new border thickness zero.
    pub fn border_color(self, color: Color) -> (r: Self)
        ensures
            r.style.fill_style == self.style.fill_style,
            r.style.border_style matches Some(b) && b.color == color,
            self.style.border_style matches Some(old_b) ==> r.style.border_style == Some(
                BorderStyle { color, thickness: old_b.thickness },
            ),
            self.style.border_style is None ==> r.style.border_style == Some(
                BorderStyle { color, thickness: 0 },
            ),
    {
        let thickness = match self.style.border_style {
            Some(b) => b.thickness,
            None => 0,
        };
        Self {
            style: QuadStyle {
                fill_style: self.style.fill_style,
                border_style: Some(BorderStyle { color, thickness }),
            },
        }
    }

    /// Sets the border thickness, keeping an existing border's color and
    /// giving a new border a transparent color.
    pub fn border_thickness(self, thickness: u32) -> (r: Self)
        ensures
            r.style.fill_style == self.style.fill_style,
            r.style.border_style matches Some(b) && b.thickness == thickness,
            self.style.border_style matches Some(old_b) ==> r.style.border_style == Some(
                BorderStyle { color: old_b.color, thickness },
            ),
            self.style.border_style is None ==> r.style.border_style == Some(
                BorderStyle { color: [0, 0, 0, 0], thickness },
            ),
    {
        let color = match self.style.border_style {
            Some(b) => b.color,
            None => [0, 0, 0, 0],
        };
        Self {
            style: QuadStyle {
                fill_style: self.style.fill_style,
                border_style: Some(BorderStyle { color, thickness }),
            },
        }
    }
}

impl Default for Quad {
    fn default() -> (r: Self)
        ensures
            r.style.fill_style is None,
            r.style.border_style is None,
    {
        Self::new()
    }
}

/// What the quad paints at pixel `(x, y)` of the surface: the border color
/// on the border ring, the fill inside it, nothing outside the region.
pub open spec fn quad_pixel_color(q: Quad, region: CalculatedLayout, x: int, y: int) -> Option<
    Color,
> {
    let inside = region.x <= x < region.x + region.w && region.y <= y < region.y + region.h;
    if inside {
        match q.style.border_style {
            Some(b) => {
                if x < region.x + b.thickness || x >= region.x + region.w - b.thickness || y
                    < region.y + b.thickness || y >= region.y + region.h - b.thickness {
                    Some(b.color)
                } else {
                    q.style.fill_style
                }
            },
            None => q.style.fill_style,
        }
    } else {
        None
    }
}

/// The color the quad gives one surface pixel, if any.
fn quad_pixel_exec(q: &Quad, region: CalculatedLayout, x: usize, y: usize) -> (r: Option<Color>)
    ensures
        r == quad_pixel_color(*q, region, x as int, y as int),
{
    let px = x as u128;
    let py = y as u128;
    let rx = region.x as u128;
    let ry = region.y as u128;
    let inside = rx <= px && px < rx + region.w as u128 && ry <= py && py < ry + region.h as u128;
    if inside {
        match q.style.border_style {
            Some(border) => {
                let t = border.thickness as u128;
                let on_border = px < rx + t || px + t >= rx + region.w as u128 || py < ry + t || py
                    + t >= ry + region.h as u128;
                if on_border {
                    Some(border.color)
                } else {
                    q.style.fill_style
                }
            },
            None => q.style.fill_style,
        }
    } else {
        None
    }
}

/// What the draw pass did to pixel `(px, py)`: wrote the quad's color for
/// it, or left its four bytes alone where the quad paints nothing there.
pub open spec fn pixel_painted(
    q: Quad,
    region: CalculatedLayout,
    pre: Buffer,
    post: Buffer,
    px: int,
    py: int,
) -> bool {
    let i = spec_pixel_index(pre.width as int, px, py);
    match quad_pixel_color(q, region, px, py) {
        Some(c) => {
            &&& post.data@[i] == c[0]
            &&& post.data@[i + 1] == c[1]
            &&& post.data@[i + 2] == c[2]
            &&& post.data@[i + 3] == c[3]
        },
        None => {
            &&& post.data@[i] == pre.data@[i]
            &&& post.data@[i + 1] == pre.data@[i + 1]
            &&& post.data@[i + 2] == pre.data@[i + 2]
            &&& post.data@[i + 3] == pre.data@[i + 3]
        },
    }
}

/// The number of whole pixel rows the buffer holds.
pub open spec fn spec_full_rows(buf: Buffer) -> int {
    if buf.width == 0 {
        0
    } else {
        (buf.data@.len() as int / 4) / (buf.width as int)
    }
}

impl<M> Element<M> for Quad {
    open spec fn spec_message(&self, state: State, input: Input, region: CalculatedLayout) -> Option<
        Emitted<M>,
    > {
        None
    }

    open spec fn spec_state_after(&self, state: State, input: Input, region: CalculatedLayout) -> State {
        state
    }

    open spec fn spec_state_matches(&self, state: State) -> bool {
        true
    }

    open spec fn spec_min_width(&self) -> int {
        0
    }

    open spec fn spec_min_height(&self, width: u32) -> int {
        0
    }

    open spec fn spec_wrap(&self, width: u32) -> Option<u32> {
        None
    }

    open spec fn spec_initial_state(&self) -> State {
        State::Stateless
    }

    /// Paints the quad's border ring and fill over every surface pixel the
    /// region covers, leaving all other pixels (and all bytes past the last
    /// whole row) exactly as they were.
    #[verifier::loop_isolation(false)]
    fn draw(&self, frame: &mut Buffer, region: CalculatedLayout)
        ensures
            forall|px: int, py: int|
                0 <= px < old(frame).width && 0 <= py < spec_full_rows(*old(frame))
                    ==> pixel_painted(*self, region, *old(frame), *final(frame), px, py),
            forall|b: int|
                spec_full_rows(*old(frame)) * (old(frame).width * 4) <= b < old(
                    frame,
                ).data@.len() ==> final(frame).data@[b] == old(frame).data@[b],
    {
        let rows: usize = if frame.width == 0 {
            0
        } else {
            (frame.data.len() / 4) / frame.width
        };
        let ghost width = frame.width as int;
        let ghost len = frame.data@.len() as int;
        proof {
            if frame.width != 0 {
                vstd::arithmetic::div_mod::lemma_fundamental_div_mod(len / 4, width);
                vstd::arithmetic::div_mod::lemma_mod_bound(len / 4, width);
                vstd::arithmetic::div_mod::lemma_fundamental_div_mod(len, 4);
                vstd::arithmetic::div_mod::lemma_mod_bound(len, 4);
                assert(width * rows <= len / 4);
                assert(rows * width == width * rows) by (nonlinear_arith);
                assert((rows * width) * 4 <= (len / 4) * 4 <= len) by (nonlinear_arith)
                    requires
                        rows * width <= len / 4,
                        (len / 4) * 4 <= len,
                ;
            } else {
                assert((rows * width) * 4 == 0) by (nonlinear_arith)
                    requires
                        rows == 0,
                ;
            }
            assert(0 * (width * 4) == 0) by (nonlinear_arith);
        }
        let mut y: usize = 0;
        while y < rows
            invariant
                frame.width == old(frame).width,
                frame.data@.len() == old(frame).data@.len(),
                0 <= y <= rows,
                (rows * width) * 4 <= len,
                forall|px: int, py: int|
                    0 <= px < width && 0 <= py < y ==> pixel_painted(
                        *self,
                        region,
                        *old(frame),
                        *frame,
                        px,
                        py,
                    ),
                forall|b: int|
                    y * (width * 4) <= b < len ==> frame.data@[b] == old(frame).data@[b],
            decreases rows - y,
        {
            let mut x: usize = 0;
            proof {
                assert((y + 1) * (width * 4) <= (rows * width) * 4) by (nonlinear_arith)
                    requires
                        0 <= y < rows,
                        width >= 0,
                ;
            }
            while x < frame.width
                invariant
                    frame.width == old(frame).width,
                    frame.data@.len() == old(frame).data@.len(),
                    0 <= x <= width,
                    0 <= y < rows,
                    (rows * width) * 4 <= len,
                    (y + 1) * (width * 4) <= (rows * width) * 4,
                    forall|px: int, py: int|
                        0 <= px < width && 0 <= py < y ==> pixel_painted(
                            *self,
                            region,
                            *old(frame),
                            *frame,
                            px,
                            py,
                        ),
                    forall|px: int|
                        0 <= px < x ==> pixel_painted(*self, region, *old(frame), *frame, px, y as int),
                    forall|b: int|
                        y * (width * 4) + x * 4 <= b < len ==> frame.data@[b] == old(
                            frame,
                        ).data@[b],
                decreases frame.width - x,
            {
                proof {
                    assert(y * (width * 4) + x * 4 == spec_pixel_index(width, x as int, y as int))
                        by (nonlinear_arith);
                    assert(spec_pixel_index(width, x as int, y as int) + 4 <= (y + 1) * (width * 4))
                        by (nonlinear_arith)
                        requires
                            0 <= x < width,
                            y >= 0,
                    ;
                }
                let ghost pre = *frame;
                let rgba: Option<Color> = quad_pixel_exec(self, region, x, y);
                if let Some(color) = rgba {
                    frame.set_pixel(x, y, color);
                }
                proof {
                    let idx = spec_pixel_index(width, x as int, y as int);
                    assert(pixel_in_bounds(pre, x as int, y as int));
                    assert forall|px: int, py: int|
                        0 <= px < width && ((py == y && 0 <= px < x) || 0 <= py
                            < y) implies pixel_painted(
                        *self,
                        region,
                        *old(frame),
                        *frame,
                        px,
                        py,
                    ) by {
                        let i = spec_pixel_index(width, px, py);
                        if py < y {
                            assert(i + 4 <= idx) by (nonlinear_arith)
                                requires
                                    0 <= px < width,
                                    0 <= py < y,
                                    0 <= x,
                                    i == (px + py * width) * 4,
                                    idx == (x + y * width) * 4,
                                    width >= 0,
                            ;
                        } else {
                            assert(i + 4 <= idx) by (nonlinear_arith)
                                requires
                                    px < x,
                                    py == y,
                                    i == (px + py * width) * 4,
                                    idx == (x + y * width) * 4,
                            ;
                        }
                        assert(pixel_painted(*self, region, *old(frame), pre, px, py));
                    };
                    assert(pixel_painted(*self, region, *old(frame), *frame, x as int, y as int));
                }
                x = x + 1;
            }
            proof {
                assert((y + 1) * (width * 4) == y * (width * 4) + width * 4) by (nonlinear_arith);
            }
            y = y + 1;
        }
    }

    fn get_message(&self, state: &mut State, input: &Input, region: CalculatedLayout) -> (r:
        Option<Emitted<M>>) {
        None
    }

    fn min_width(&self) -> (r: u32) {
        0
    }

    fn min_height(&self, width: u32) -> (r: u32) {
        0
    }

    fn wrap(&self, width: u32) -> (r: Option<u32>) {
        None
    }

    fn get_initial_state(&self) -> (r: State) {
        State::Stateless
    }
}

} // verus!
