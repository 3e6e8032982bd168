//! An invisible press target: emits its configured messages when the pointer
//! interacts with its resolved rectangle.
use crate::buffer::Buffer;
use crate::element::Element;
use crate::element::Emitted;
use crate::layout::CalculatedLayout;
use crate::state_tree::State;
use crate::Input;
use vstd::prelude::*;

verus! {

pub struct Button<M> {
    /// Emitted on the frame the pointer is released inside the rectangle.
    pub on_press: Option<M>,
    /// Stored for symmetry with the other handlers; dispatch does not
    /// consult it.
    pub on_hover: Option<M>,
    /// Emitted on every frame the pointer is held down inside the rectangle.
    pub whenever_down: Option<M>,
}

impl<M> Button<M> {
    pub fn new() -> (r: Self)
        ensures
            r.on_press is None,
            r.on_hover is None,
            r.whenever_down is None,
    {
        Self { on_press: None, on_hover: None, whenever_down: None }
    }

    pub fn on_press(self, m: M) -> (r: Self)
        ensures
            r.on_press == Some(m),
            r.on_hover == self.on_hover,
            r.whenever_down == self.whenever_down,
    {
        Self { on_press: Some(m), ..self }
    }

    pub fn on_hover(self, m: M) -> (r: Self)
        ensures
            r.on_hover == Some(m),
            r.on_press == self.on_press,
            r.whenever_down == self.whenever_down,
    {
        Self { on_hover: Some(m), ..self }
    }

    pub fn whenever_down(self, m: M) -> (r: Self)
        ensures
            r.whenever_down == Some(m),
            r.on_press == self.on_press,
            r.on_hover == self.on_hover,
    {
        Self { whenever_down: Some(m), ..self }
    }
}

impl<M: Copy> Element<M> for Button<M> {
    /// The button speaks only when the pointer is known and inside its
    /// rectangle: its press message exactly on a release frame, else its
    /// held-down message while the pointer is down. Hovering alone never
    /// emits.
    open spec fn spec_message(&self, state: State, input: Input, region: CalculatedLayout) -> Option<
        Emitted<M>,
    > {
        match input.mouse_pos {
            Some(pos) => {
                if region.spec_contains(pos) {
                    if input.mouse_released {
                        match self.on_press {
                            Some(m) => Some(Emitted::Plain(m)),
                            None => None,
                        }
                    } else if input.mouse_down {
                        match self.whenever_down {
                            Some(m) => Some(Emitted::Plain(m)),
                            None => None,
                        }
                    } else {
                        None
                    }
                } else {
                    None
                }
            },
            None => None,
        }
    }

    open spec fn spec_state_after(&self, state: State, input: Input, region: CalculatedLayout) -> State {
        state
    }

    open spec fn spec_state_matches(&self, state: State) -> bool {
        true
    }

    open spec fn spec_min_width(&self) -> int {
        0
    }

    open spec fn spec_min_height(&self, width: u32) -> int {
        0
    }

    open spec fn spec_wrap(&self, width: u32) -> Option<u32> {
        None
    }

    open spec fn spec_initial_state(&self) -> State {
        State::Stateless
    }

    fn draw(&self, frame: &mut Buffer, region: CalculatedLayout) {
    }

    fn get_message(&self, state: &mut State, input: &Input, region: CalculatedLayout) -> (r:
        Option<Emitted<M>>) {
        if let Some(mouse_pos) = input.mouse_pos {
            if region.contains(mouse_pos) {
                if input.mouse_released {
                    return match self.on_press {
                        Some(m) => Some(Emitted::Plain(m)),
                        None => None,
                    };
                }
                if input.mouse_down {
                    return match self.whenever_down {
                        Some(m) => Some(Emitted::Plain(m)),
                        None => None,
                    };
                }
            }
        }
        None
    }

    fn min_width(&self) -> (r: u32) {
        0
    }

    fn min_height(&self, width: u32) -> (r: u32) {
        0
    }

    fn wrap(&self, width: u32) -> (r: Option<u32>) {
        None
    }

    fn get_initial_state(&self) -> (r: State) {
        State::Stateless
    }
}

} // verus!
