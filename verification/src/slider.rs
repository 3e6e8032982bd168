//! A horizontal slider over an integer range. Its drag state persists in the
//! state tree across frame rebuilds: once a drag starts inside the
//! rectangle, it keeps receiving drag updates while the pointer stays down,
//! even after the pointer leaves the bounds.
use crate::buffer::byte_pixel_x;
use crate::buffer::byte_pixel_y;
use crate::buffer::lemma_byte_of_pixel;
use crate::buffer::lemma_pixel_cells_disjoint;
use crate::buffer::pixel_in_bounds;
use crate::buffer::spec_pixel_index;
use crate::buffer::spec_write_pixel;
use crate::buffer::Buffer;
use crate::element::Element;
use crate::element::Emitted;
use crate::layout::CalculatedLayout;
use crate::palette::BLUE_DARK;
use crate::palette::BLUE_LIGHT;
use crate::palette::Color;
use crate::state_tree;
use crate::Input;
use vstd::prelude::*;

verus! {

pub struct Slider<M> {
    /// Emitted with the new value on every frame of an active drag.
    pub on_drag: Option<M>,
    pub value: u32,
    pub range_start: u32,
    pub range_end: u32,
    pub primary_color: Color,
    pub secondary_color: Color,
}

/// The slider's persisted interaction state.
#[derive(Clone, Copy, Debug, PartialEq, Eq, Structural)]
pub struct State {
    pub is_dragging: bool,
}

impl<M> Slider<M> {
    pub fn new(range_start: u32, range_end: u32, value: u32) -> (r: Self)
        requires
            range_start <= range_end,
        ensures
            r.on_drag is None,
            r.value == value,
            r.range_start == range_start,
            r.range_end == range_end,
            r.primary_color == BLUE_LIGHT,
            r.secondary_color == BLUE_DARK,
    {
        Self {
            on_drag: None,
            value,
            range_start,
            range_end,
            primary_color: BLUE_LIGHT,
            secondary_color: BLUE_DARK,
        }
    }

    pub fn on_drag(self, m: M) -> (r: Self)
        ensures
            r == (Slider { on_drag: Some(m), ..self }),
    {
        Self { on_drag: Some(m), ..self }
    }

    pub fn set_color(self, primary: Color, secondary: Color) -> (r: Self)
        ensures
            r == (Slider { primary_color: primary, secondary_color: secondary, ..self }),
    {
        Self { primary_color: primary, secondary_color: secondary, ..self }
    }
}

/// Whether the slider is dragging after it has seen the input: a drag
/// starts when the pointer goes down inside the rectangle, and survives
/// exactly as long as the pointer stays down.
pub open spec fn dragging_after(
    was_dragging: bool,
    input: Input,
    region: CalculatedLayout,
) -> bool {
    match input.mouse_pos {
        Some(pos) => {
            let started = was_dragging || (region.spec_contains(pos) && input.mouse_down);
            input.mouse_down && started
        },
        None => was_dragging,
    }
}

/// The value a drag at pointer column `px` selects: the fraction of the
/// rectangle's width left of the pointer, scaled into the range and clamped
/// to its end (a pointer left of the rectangle selects the start, one past
/// its right edge the end; a zero-width rectangle selects the start).
pub open spec fn spec_drag_value(
    range_start: u32,
    range_end: u32,
    region: CalculatedLayout,
    px: u32,
) -> u32 {
    let off: int = if px >= region.x {
        px - region.x
    } else {
        0
    };
    if region.w == 0 || range_end <= range_start {
        range_start
    } else {
        let raw = range_start + (range_end - range_start) * off / (region.w as int);
        if raw > range_end {
            range_end
        } else {
            raw as u32
        }
    }
}

/// The color the slider shows at its region-relative cell `(i, j)`: the
/// primary color on the filled fraction left of the value, the secondary
/// color on the rest (the fill test is the value fraction cross-multiplied,
/// so it stays in integers).
pub open spec fn slider_pixel_color<M>(
    s: Slider<M>,
    region: CalculatedLayout,
    i: int,
    j: int,
) -> Color {
    let span: int = if s.range_end >= s.range_start {
        s.range_end - s.range_start
    } else {
        0
    };
    let filled: int = if s.value >= s.range_start {
        s.value - s.range_start
    } else {
        0
    };
    if i * span < filled * region.w {
        s.primary_color
    } else {
        s.secondary_color
    }
}

/// The slider's region-relative cell `(i, j)` shows its color: wherever the
/// cell's pixel lies inside the buffer, its four bytes hold the cell color.
pub open spec fn slider_cell_painted<M>(
    s: Slider<M>,
    region: CalculatedLayout,
    pre: Buffer,
    post: Buffer,
    i: int,
    j: int,
) -> bool {
    let px = region.x + i;
    let py = region.y + j;
    let idx = spec_pixel_index(pre.width as int, px, py);
    let c = slider_pixel_color(s, region, i, j);
    pixel_in_bounds(pre, px, py) ==> {
        &&& post.data@[idx] == c[0]
        &&& post.data@[idx + 1] == c[1]
        &&& post.data@[idx + 2] == c[2]
        &&& post.data@[idx + 3] == c[3]
    }
}

/// One slider write preserves every already-painted cell and every byte
/// whose pixel is not the cell just written.
proof fn lemma_slider_draw_step<M>(
    s: Slider<M>,
    region: CalculatedLayout,
    orig: Buffer,
    pre: Buffer,
    post: Buffer,
    i: int,
    j: int,
    color: Color,
)
    requires
        pre.width == orig.width,
        pre.data@.len() == orig.data@.len(),
        post.width == pre.width,
        post.data@ == spec_write_pixel(pre, region.x + i, region.y + j, color),
        color == slider_pixel_color(s, region, i, j),
        0 <= i < region.w,
        0 <= j < region.h,
    ensures
        slider_cell_painted(s, region, orig, post, i, j),
        forall|i2: int, j2: int|
            0 <= i2 < region.w && 0 <= j2 < region.h && (i2, j2) != (i, j)
                && slider_cell_painted(s, region, orig, pre, i2, j2) ==> slider_cell_painted(
                s,
                region,
                orig,
                post,
                i2,
                j2,
            ),
        forall|b: int|
            0 <= b < pre.data@.len() && !(pre.width > 0 && byte_pixel_x(pre.width as int, b)
                == region.x + i && byte_pixel_y(pre.width as int, b) == region.y + j)
                ==> post.data@[b] == pre.data@[b],
{
    let width = pre.width as int;
    let px = region.x + i;
    let py = region.y + j;
    let idx = spec_pixel_index(width, px, py);
    if pixel_in_bounds(pre, px, py) {
        assert forall|b: int|
            0 <= b < pre.data@.len() && !(pre.width > 0 && byte_pixel_x(width, b) == px
                && byte_pixel_y(width, b) == py) implies post.data@[b] == pre.data@[b] by {
            if idx <= b < idx + 4 {
                lemma_byte_of_pixel(width, px, py, b);
            }
        }
        assert forall|i2: int, j2: int|
            0 <= i2 < region.w && 0 <= j2 < region.h && (i2, j2) != (i, j) && slider_cell_painted(
                s,
                region,
                orig,
                pre,
                i2,
                j2,
            ) implies slider_cell_painted(s, region, orig, post, i2, j2) by {
            let px2 = region.x + i2;
            let py2 = region.y + j2;
            if pixel_in_bounds(orig, px2, py2) {
                lemma_pixel_cells_disjoint(width, px, py, px2, py2);
            }
        }
    }
}

impl<M: Copy> Element<M> for Slider<M> {
    /// A drag update is emitted exactly on the frames where the slider is
    /// dragging after this input and a drag handler is set.
    open spec fn spec_message(&self, state: state_tree::State, input: Input, region: CalculatedLayout) -> Option<
        Emitted<M>,
    > {
        match input.mouse_pos {
            Some(pos) => {
                if dragging_after(state->Slider_0.is_dragging, input, region) && self.on_drag
                    is Some {
                    Some(
                        Emitted::Value(
                            self.on_drag->0,
                            spec_drag_value(self.range_start, self.range_end, region, pos.0),
                        ),
                    )
                } else {
                    None
                }
            },
            None => None,
        }
    }

    open spec fn spec_state_after(&self, state: state_tree::State, input: Input, region: CalculatedLayout) -> state_tree::State {
        state_tree::State::Slider(
            State { is_dragging: dragging_after(state->Slider_0.is_dragging, input, region) },
        )
    }

    open spec fn spec_state_matches(&self, state: state_tree::State) -> bool {
        state is Slider
    }

    open spec fn spec_min_width(&self) -> int {
        0
    }

    open spec fn spec_min_height(&self, width: u32) -> int {
        0
    }

    open spec fn spec_wrap(&self, width: u32) -> Option<u32> {
        None
    }

    open spec fn spec_initial_state(&self) -> state_tree::State {
        state_tree::State::Slider(State { is_dragging: false })
    }

    /// Paints the filled fraction of the rectangle in the primary color and
    /// the rest in the secondary color: every in-bounds pixel of the region
    /// shows its cell's color, every byte outside the region keeps its
    /// value, and off-buffer writes are dropped.
    #[verifier::loop_isolation(false)]
    #[verifier::rlimit(60)]
    fn draw(&self, frame: &mut Buffer, region: CalculatedLayout)
        ensures
            forall|i: int, j: int|
                0 <= i < region.w && 0 <= j < region.h ==> slider_cell_painted(
                    *self,
                    region,
                    *old(frame),
                    *final(frame),
                    i,
                    j,
                ),
            old(frame).width == 0 ==> final(frame).data@ == old(frame).data@,
            old(frame).width > 0 ==> forall|b: int|
                0 <= b < old(frame).data@.len() && !(region.x <= byte_pixel_x(
                    old(frame).width as int,
                    b,
                ) < region.x + region.w && region.y <= byte_pixel_y(old(frame).width as int, b)
                    < region.y + region.h) ==> final(frame).data@[b] == #[trigger] old(
                    frame,
                ).data@[b],
    {
        let span = if self.range_end >= self.range_start {
            (self.range_end - self.range_start) as u64
        } else {
            0
        };
        let filled = if self.value >= self.range_start {
            (self.value - self.range_start) as u64
        } else {
            0
        };
        let ghost width = old(frame).width as int;
        let mut j: u32 = 0;
        while j < region.h
            invariant
                frame.width == old(frame).width,
                frame.data@.len() == old(frame).data@.len(),
                0 <= j <= region.h,
                forall|i2: int, j2: int|
                    0 <= i2 < region.w && 0 <= j2 < j ==> slider_cell_painted(
                        *self,
                        region,
                        *old(frame),
                        *frame,
                        i2,
                        j2,
                    ),
                width == 0 ==> frame.data@ == old(frame).data@,
                width > 0 ==> forall|b: int|
                    0 <= b < old(frame).data@.len() && !(region.x <= byte_pixel_x(width, b)
                        < region.x + region.w && region.y <= byte_pixel_y(width, b) < region.y
                        + j) ==> frame.data@[b] == #[trigger] old(frame).data@[b],
            decreases region.h - j,
        {
            let mut i: u32 = 0;
            while i < region.w
                invariant
                    frame.width == old(frame).width,
                    frame.data@.len() == old(frame).data@.len(),
                    0 <= i <= region.w,
                    0 <= j < region.h,
                    forall|i2: int, j2: int|
                        0 <= i2 < region.w && 0 <= j2 < j ==> slider_cell_painted(
                            *self,
                            region,
                            *old(frame),
                            *frame,
                            i2,
                            j2,
                        ),
                    forall|i2: int|
                        0 <= i2 < i ==> slider_cell_painted(
                            *self,
                            region,
                            *old(frame),
                            *frame,
                            i2,
                            j as int,
                        ),
                    width == 0 ==> frame.data@ == old(frame).data@,
                    width > 0 ==> forall|b: int|
                        0 <= b < old(frame).data@.len() && !(region.x <= byte_pixel_x(width, b)
                            < region.x + region.w && (region.y <= byte_pixel_y(width, b) < region.y
                            + j || (byte_pixel_y(width, b) == region.y + j && region.x
                            <= byte_pixel_x(width, b) < region.x + i))) ==> frame.data@[b]
                            == #[trigger] old(frame).data@[b],
                decreases region.w - i,
            {
                proof {
                    assert((i as int) * (span as int) <= (u32::MAX as int) * (u32::MAX as int))
                        by (nonlinear_arith)
                        requires
                            0 <= i <= u32::MAX,
                            0 <= span <= u32::MAX,
                    ;
                    assert((filled as int) * (region.w as int) <= (u32::MAX as int) * (
                    u32::MAX as int)) by (nonlinear_arith)
                        requires
                            0 <= filled <= u32::MAX,
                            0 <= region.w <= u32::MAX,
                    ;
                }
                // i / w < (value - start) / span, cross-multiplied
                let pixel = if (i as u64) * span < filled * (region.w as u64) {
                    self.primary_color
                } else {
                    self.secondary_color
                };
                let px = (region.x as u64) + (i as u64);
                let py = (region.y as u64) + (j as u64);
                let ghost pre = *frame;
                proof {
                    if width > 0 {
                        assert forall|b: int|
                            0 <= b < old(frame).data@.len() && !(region.x <= byte_pixel_x(width, b)
                                < region.x + region.w && (region.y <= byte_pixel_y(width, b)
                                < region.y + j || (byte_pixel_y(width, b) == region.y + j
                                && region.x <= byte_pixel_x(width, b) < region.x
                                + i))) implies pre.data@[b] == #[trigger] old(frame).data@[b] by {
                            assert(frame.data@[b] == old(frame).data@[b]);
                        }
                    }
                }
                if px <= usize::MAX as u64 && py <= usize::MAX as u64 {
                    frame.set_pixel(px as usize, py as usize, pixel);
                } else {
                    proof {
                        // a coordinate past the address space can never be a
                        // buffer pixel, so there is nothing to write
                        if width >= 1 {
                            assert((region.x + i + (region.y + j) * width) * 4 + 4 > usize::MAX)
                                by (nonlinear_arith)
                                requires
                                    region.x + i > usize::MAX || region.y + j > usize::MAX,
                                    width >= 1,
                                    0 <= region.x + i,
                                    0 <= region.y + j,
                            ;
                        }
                        assert(!pixel_in_bounds(pre, region.x + i, region.y + j));
                        assert(frame.data@ == spec_write_pixel(
                            pre,
                            region.x + i,
                            region.y + j,
                            pixel,
                        ));
                    }
                }
                proof {
                    if width == 0 {
                        assert(!pixel_in_bounds(pre, region.x + i, region.y + j));
                        assert(frame.data@ == pre.data@);
                    }
                    lemma_slider_draw_step(
                        *self,
                        region,
                        *old(frame),
                        pre,
                        *frame,
                        i as int,
                        j as int,
                        pixel,
                    );
                    if width > 0 {
                        assert forall|b: int|
                            0 <= b < old(frame).data@.len() && !(region.x <= byte_pixel_x(width, b)
                                < region.x + region.w && (region.y <= byte_pixel_y(width, b)
                                < region.y + j || (byte_pixel_y(width, b) == region.y + j
                                && region.x <= byte_pixel_x(width, b) < region.x + i
                                + 1))) implies frame.data@[b] == #[trigger] old(frame).data@[b] by {
                            assert(!(region.x <= byte_pixel_x(width, b) < region.x + region.w && (
                            region.y <= byte_pixel_y(width, b) < region.y + j || (byte_pixel_y(
                                width,
                                b,
                            ) == region.y + j && region.x <= byte_pixel_x(width, b) < region.x
                                + i))));
                            assert(pre.data@[b] == old(frame).data@[b]);
                            assert(!(byte_pixel_x(width, b) == region.x + i && byte_pixel_y(
                                width,
                                b,
                            ) == region.y + j));
                        }
                    }
                }
                i = i + 1;
            }
            proof {
                if width > 0 {
                    assert forall|b: int|
                        0 <= b < old(frame).data@.len() && !(region.x <= byte_pixel_x(width, b)
                            < region.x + region.w && region.y <= byte_pixel_y(width, b) < region.y
                            + j + 1) implies frame.data@[b] == #[trigger] old(frame).data@[b] by {
                        assert(!(region.x <= byte_pixel_x(width, b) < region.x + region.w && (
                        region.y <= byte_pixel_y(width, b) < region.y + j || (byte_pixel_y(
                            width,
                            b,
                        ) == region.y + j && region.x <= byte_pixel_x(width, b) < region.x
                            + region.w))));
                    }
                }
            }
            j = j + 1;
        }
    }

    fn get_message(&self, state: &mut state_tree::State, input: &Input, region: CalculatedLayout) -> (r:
        Option<Emitted<M>>) {
        let slider_state = state.downcast_mut();
        if let Some(mouse_pos) = input.mouse_pos {
            if region.contains(mouse_pos) && input.mouse_down {
                slider_state.is_dragging = true;
            }
            if input.mouse_down && slider_state.is_dragging {
                if let Some(on_drag) = self.on_drag {
                    let off = if mouse_pos.0 >= region.x {
                        mouse_pos.0 - region.x
                    } else {
                        0
                    };
                    let new_value: u32 = if region.w == 0 || self.range_end <= self.range_start {
                        self.range_start
                    } else {
                        proof {
                            assert((self.range_end - self.range_start) * (off as int) <= (
                            u32::MAX as int) * (u32::MAX as int)) by (nonlinear_arith)
                                requires
                                    0 <= self.range_end - self.range_start <= u32::MAX,
                                    0 <= off <= u32::MAX,
                            ;
                        }
                        let raw = (self.range_start as u64) + ((self.range_end - self.range_start)
                            as u64) * (off as u64) / (region.w as u64);
                        if raw > self.range_end as u64 {
                            self.range_end
                        } else {
                            raw as u32
                        }
                    };
                    return Some(Emitted::Value(on_drag, new_value));
                }
            } else {
                slider_state.is_dragging = false;
            }
        }
        None
    }

    fn min_width(&self) -> (r: u32) {
        0
    }

    fn min_height(&self, width: u32) -> (r: u32) {
        0
    }

    fn wrap(&self, width: u32) -> (r: Option<u32>) {
        None
    }

    fn get_initial_state(&self) -> (r: state_tree::State) {
        state_tree::State::Slider(State { is_dragging: false })
    }
}

/// The persisted drag keeps a slider live across consecutive frames: while
/// the pointer stays down, a dragging slider is still dragging after any
/// further frame, wherever the pointer has moved.
pub proof fn lemma_drag_persists(was_dragging: bool, input: Input, region: CalculatedLayout)
    requires
        was_dragging,
        input.mouse_pos is Some,
        input.mouse_down,
    ensures
        dragging_after(was_dragging, input, region),
{
}

} // verus!
