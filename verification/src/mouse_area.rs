//! An invisible pointer-capture area: emits position-carrying messages while
//! the pointer interacts with its rectangle, and an exit message on the
//! frame the pointer leaves it.
use crate::buffer::Buffer;
use crate::element::Element;
use crate::element::Emitted;
use crate::layout::CalculatedLayout;
use crate::state_tree::State;
use crate::Input;
use vstd::prelude::*;

verus! {

/// Each handler is a message tag; dispatch pairs the tag with the pointer
/// position relative to the area's origin (the exit handler carries no
/// position, since the pointer is outside).
pub struct MouseArea<M> {
    /// Emitted on the frame the pointer is released inside the rectangle.
    pub on_press: Option<M>,
    /// Emitted on every frame the pointer is held down inside the rectangle.
    pub whenever_down: Option<M>,
    /// Emitted when the pointer is inside the rectangle and nothing else
    /// applies.
    pub on_hover: Option<M>,
    /// Emitted on the frame the pointer moved from inside to outside.
    pub on_exit: Option<M>,
}

impl<M> MouseArea<M> {
    pub fn new() -> (r: Self)
        ensures
            r.on_press is None,
            r.on_hover is None,
            r.on_exit is None,
            r.whenever_down is None,
    {
        Self { on_press: None, on_hover: None, on_exit: None, whenever_down: None }
    }

    pub fn on_press(self, m: M) -> (r: Self)
        ensures
            r == (MouseArea { on_press: Some(m), ..self }),
    {
        Self { on_press: Some(m), ..self }
    }

    pub fn whenever_down(self, m: M) -> (r: Self)
        ensures
            r == (MouseArea { whenever_down: Some(m), ..self }),
    {
        Self { whenever_down: Some(m), ..self }
    }

    pub fn on_hover(self, m: M) -> (r: Self)
        ensures
            r == (MouseArea { on_hover: Some(m), ..self }),
    {
        Self { on_hover: Some(m), ..self }
    }

    pub fn on_exit(self, m: M) -> (r: Self)
        ensures
            r == (MouseArea { on_exit: Some(m), ..self }),
    {
        Self { on_exit: Some(m), ..self }
    }
}

/// Whether the previous frame's pointer position is known and was inside
/// the rectangle.
pub open spec fn was_inside(input: Input, region: CalculatedLayout) -> bool {
    match input.prev_mouse_pos {
        Some(pos) => region.spec_contains(pos),
        None => false,
    }
}

impl<M: Copy> Element<M> for MouseArea<M> {
    /// Inside the rectangle, the first applicable handler wins: press on a
    /// release frame, then held-down, then hover. Outside it, the exit
    /// handler fires exactly when the previous position was still inside.
    open spec fn spec_message(&self, state: State, input: Input, region: CalculatedLayout) -> Option<
        Emitted<M>,
    > {
        match input.mouse_pos {
            Some(pos) => {
                if region.spec_contains(pos) {
                    let rel = ((pos.0 - region.x) as u32, (pos.1 - region.y) as u32);
                    if input.mouse_released && self.on_press is Some {
                        Some(Emitted::At(self.on_press->0, rel))
                    } else if self.whenever_down is Some && input.mouse_down {
                        Some(Emitted::At(self.whenever_down->0, rel))
                    } else if self.on_hover is Some {
                        Some(Emitted::At(self.on_hover->0, rel))
                    } else {
                        None
                    }
                } else if was_inside(input, region) && self.on_exit is Some {
                    Some(Emitted::Plain(self.on_exit->0))
                } else {
                    None
                }
            },
            None => None,
        }
    }

    open spec fn spec_state_after(&self, state: State, input: Input, region: CalculatedLayout) -> State {
        state
    }

    open spec fn spec_state_matches(&self, state: State) -> bool {
        true
    }

    open spec fn spec_min_width(&self) -> int {
        0
    }

    open spec fn spec_min_height(&self, width: u32) -> int {
        0
    }

    open spec fn spec_wrap(&self, width: u32) -> Option<u32> {
        None
    }

    open spec fn spec_initial_state(&self) -> State {
        State::Stateless
    }

    fn draw(&self, frame: &mut Buffer, region: CalculatedLayout) {
    }

    fn get_message(&self, state: &mut State, input: &Input, region: CalculatedLayout) -> (r:
        Option<Emitted<M>>) {
        if let Some(mouse_pos) = input.mouse_pos {
            if region.contains(mouse_pos) {
                let rel = (mouse_pos.0 - region.x, mouse_pos.1 - region.y);
                if input.mouse_released {
                    if let Some(on_press) = self.on_press {
                        return Some(Emitted::At(on_press, rel));
                    }
                }
                if let Some(whenever_down) = self.whenever_down {
                    if input.mouse_down {
                        return Some(Emitted::At(whenever_down, rel));
                    }
                }
                if let Some(on_hover) = self.on_hover {
                    return Some(Emitted::At(on_hover, rel));
                }
            } else {
                let previously_in_bounds = match input.prev_mouse_pos {
                    Some(pos) => region.contains(pos),
                    None => false,
                };
                if previously_in_bounds {
                    if let Some(on_exit) = self.on_exit {
                        return Some(Emitted::Plain(on_exit));
                    }
                }
            }
        }
        None
    }

    fn min_width(&self) -> (r: u32) {
        0
    }

    fn min_height(&self, width: u32) -> (r: u32) {
        0
    }

    fn wrap(&self, width: u32) -> (r: Option<u32>) {
        None
    }

    fn get_initial_state(&self) -> (r: State) {
        State::Stateless
    }
}

/// When the pointer has left the area and its exit handler is set, the exit
/// message fires on exactly the frame of the transition.
pub proof fn lemma_mouse_area_exit_fires<M: Copy>(
    ma: MouseArea<M>,
    state: State,
    input: Input,
    region: CalculatedLayout,
)
    requires
        input.mouse_pos matches Some(pos) && !region.spec_contains(pos),
        was_inside(input, region),
        ma.on_exit is Some,
    ensures
        ma.spec_message(state, input, region) == Some(Emitted::Plain::<M>(ma.on_exit->0)),
{
}

/// The exit message cannot fire twice for one crossing: on the next frame,
/// whose previous position is this frame's (outside) position, the area
/// stays silent while the pointer remains outside.
pub proof fn lemma_mouse_area_exit_fires_once<M: Copy>(
    ma: MouseArea<M>,
    state: State,
    this_frame: Input,
    next_frame: Input,
    region: CalculatedLayout,
)
    requires
        this_frame.mouse_pos matches Some(pos) && !region.spec_contains(pos),
        next_frame.prev_mouse_pos == this_frame.mouse_pos,
        next_frame.mouse_pos matches Some(pos) && !region.spec_contains(pos),
    ensures
        ma.spec_message(state, next_frame, region) is None,
{
}

} // verus!
