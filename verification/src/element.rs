//! The capability contract every widget implements: draw into a region,
//! report intrinsic minimum sizes, re-measure after width is known, respond
//! to input with at most one message, and seed persistent state.
use crate::buffer::Buffer;
use crate::button::Button;
use crate::image::Image;
use crate::layout::CalculatedLayout;
use crate::mouse_area::MouseArea;
use crate::quad::Quad;
use crate::slider::Slider;
use crate::state_tree::State;
use crate::text::Text;
use crate::Input;
use vstd::prelude::*;

verus! {

/// A message produced by dispatch: the handler's tag of the application's
/// message type, together with the payload the widget computed. Handlers
/// that would be closures over a position or value are modeled as a tag
/// plus this payload, which the application's update function combines.
pub enum Emitted<M> {
    /// A plain message, with no payload.
    Plain(M),
    /// A message carrying a pointer position relative to the widget's
    /// origin.
    At(M, (u32, u32)),
    /// A message carrying a slider's new value.
    Value(M, u32),
}

/// The widget capability. Spec functions give each operation's meaning; the
/// executable methods are bound to them, so the layout pipeline and the
/// dispatch walk can be specified abstractly over any widget.
pub trait Element<M> {
    /// The message this widget emits for the given state slot, input and
    /// resolved rectangle; `None` when it stays silent.
    spec fn spec_message(&self, state: State, input: Input, region: CalculatedLayout) -> Option<
        Emitted<M>,
    >;

    /// This widget's state slot after it has seen the input.
    spec fn spec_state_after(&self, state: State, input: Input, region: CalculatedLayout) -> State;

    /// Which state slots this widget can be dispatched against.
    spec fn spec_state_matches(&self, state: State) -> bool;

    /// The intrinsic minimum width below which content is lost.
    spec fn spec_min_width(&self) -> int;

    /// The intrinsic minimum height at the given width.
    spec fn spec_min_height(&self, width: u32) -> int;

    /// For width-sensitive content, the height needed to render at the
    /// given width; `None` when height does not depend on width.
    spec fn spec_wrap(&self, width: u32) -> Option<u32>;

    /// The seed value for this widget's persistent state slot.
    spec fn spec_initial_state(&self) -> State;

    /// Paints the widget into the given absolute rectangle; writes that
    /// would fall outside the buffer are dropped, never a panic.
    fn draw(&self, frame: &mut Buffer, region: CalculatedLayout)
        ensures
            final(frame).width == old(frame).width,
            final(frame).data@.len() == old(frame).data@.len(),
    ;

    /// Consults the widget during dispatch; it may mutate its own state
    /// slot, and never changes the slot's kind.
    fn get_message(&self, state: &mut State, input: &Input, region: CalculatedLayout) -> (r:
        Option<Emitted<M>>)
        requires
            self.spec_state_matches(*old(state)),
        ensures
            r == self.spec_message(*old(state), *input, region),
            *final(state) == self.spec_state_after(*old(state), *input, region),
            self.spec_state_matches(*final(state)),
    ;

    fn min_width(&self) -> (r: u32)
        ensures
            r == self.spec_min_width(),
    ;

    fn min_height(&self, width: u32) -> (r: u32)
        ensures
            r == self.spec_min_height(width),
    ;

    fn wrap(&self, width: u32) -> (r: Option<u32>)
        ensures
            r == self.spec_wrap(width),
    ;

    fn get_initial_state(&self) -> (r: State)
        ensures
            r == self.spec_initial_state(),
            self.spec_state_matches(r),
    ;
}

/// The closed set of widgets a node can hold, dispatching the capability to
/// the variant.
pub enum Widget<M> {
    Quad(Quad),
    Text(Text),
    Button(Button<M>),
    Slider(Slider<M>),
    MouseArea(MouseArea<M>),
    Image(Image),
}

impl<M: Copy> Element<M> for Widget<M> {
    open spec fn spec_message(&self, state: State, input: Input, region: CalculatedLayout) -> Option<
        Emitted<M>,
    > {
        match self {
            Widget::Quad(w) => Element::<M>::spec_message(w, state, input, region),
            Widget::Text(w) => Element::<M>::spec_message(w, state, input, region),
            Widget::Button(w) => w.spec_message(state, input, region),
            Widget::Slider(w) => w.spec_message(state, input, region),
            Widget::MouseArea(w) => w.spec_message(state, input, region),
            Widget::Image(w) => Element::<M>::spec_message(w, state, input, region),
        }
    }

    open spec fn spec_state_after(&self, state: State, input: Input, region: CalculatedLayout) -> State {
        match self {
            Widget::Quad(w) => Element::<M>::spec_state_after(w, state, input, region),
            Widget::Text(w) => Element::<M>::spec_state_after(w, state, input, region),
            Widget::Button(w) => w.spec_state_after(state, input, region),
            Widget::Slider(w) => w.spec_state_after(state, input, region),
            Widget::MouseArea(w) => w.spec_state_after(state, input, region),
            Widget::Image(w) => Element::<M>::spec_state_after(w, state, input, region),
        }
    }

    open spec fn spec_state_matches(&self, state: State) -> bool {
        match self {
            Widget::Quad(w) => Element::<M>::spec_state_matches(w, state),
            Widget::Text(w) => Element::<M>::spec_state_matches(w, state),
            Widget::Button(w) => w.spec_state_matches(state),
            Widget::Slider(w) => w.spec_state_matches(state),
            Widget::MouseArea(w) => w.spec_state_matches(state),
            Widget::Image(w) => Element::<M>::spec_state_matches(w, state),
        }
    }

    open spec fn spec_min_width(&self) -> int {
        match self {
            Widget::Quad(w) => Element::<M>::spec_min_width(w),
            Widget::Text(w) => Element::<M>::spec_min_width(w),
            Widget::Button(w) => w.spec_min_width(),
            Widget::Slider(w) => w.spec_min_width(),
            Widget::MouseArea(w) => w.spec_min_width(),
            Widget::Image(w) => Element::<M>::spec_min_width(w),
        }
    }

    open spec fn spec_min_height(&self, width: u32) -> int {
        match self {
            Widget::Quad(w) => Element::<M>::spec_min_height(w, width),
            Widget::Text(w) => Element::<M>::spec_min_height(w, width),
            Widget::Button(w) => w.spec_min_height(width),
            Widget::Slider(w) => w.spec_min_height(width),
            Widget::MouseArea(w) => w.spec_min_height(width),
            Widget::Image(w) => Element::<M>::spec_min_height(w, width),
        }
    }

    open spec fn spec_wrap(&self, width: u32) -> Option<u32> {
        match self {
            Widget::Quad(w) => Element::<M>::spec_wrap(w, width),
            Widget::Text(w) => Element::<M>::spec_wrap(w, width),
            Widget::Button(w) => w.spec_wrap(width),
            Widget::Slider(w) => w.spec_wrap(width),
            Widget::MouseArea(w) => w.spec_wrap(width),
            Widget::Image(w) => Element::<M>::spec_wrap(w, width),
        }
    }

    open spec fn spec_initial_state(&self) -> State {
        match self {
            Widget::Quad(w) => Element::<M>::spec_initial_state(w),
            Widget::Text(w) => Element::<M>::spec_initial_state(w),
            Widget::Button(w) => w.spec_initial_state(),
            Widget::Slider(w) => w.spec_initial_state(),
            Widget::MouseArea(w) => w.spec_initial_state(),
            Widget::Image(w) => Element::<M>::spec_initial_state(w),
        }
    }

    fn draw(&self, frame: &mut Buffer, region: CalculatedLayout) {
        match self {
            Widget::Quad(w) => Element::<M>::draw(w, frame, region),
            Widget::Text(w) => Element::<M>::draw(w, frame, region),
            Widget::Button(w) => w.draw(frame, region),
            Widget::Slider(w) => w.draw(frame, region),
            Widget::MouseArea(w) => w.draw(frame, region),
            Widget::Image(w) => Element::<M>::draw(w, frame, region),
        }
    }

    fn get_message(&self, state: &mut State, input: &Input, region: CalculatedLayout) -> (r:
        Option<Emitted<M>>) {
        match self {
            Widget::Quad(w) => Element::<M>::get_message(w, state, input, region),
            Widget::Text(w) => Element::<M>::get_message(w, state, input, region),
            Widget::Button(w) => w.get_message(state, input, region),
            Widget::Slider(w) => w.get_message(state, input, region),
            Widget::MouseArea(w) => w.get_message(state, input, region),
            Widget::Image(w) => Element::<M>::get_message(w, state, input, region),
        }
    }

    fn min_width(&self) -> (r: u32) {
        match self {
            Widget::Quad(w) => Element::<M>::min_width(w),
            Widget::Text(w) => Element::<M>::min_width(w),
            Widget::Button(w) => w.min_width(),
            Widget::Slider(w) => w.min_width(),
            Widget::MouseArea(w) => w.min_width(),
            Widget::Image(w) => Element::<M>::min_width(w),
        }
    }

    fn min_height(&self, width: u32) -> (r: u32) {
        match self {
            Widget::Quad(w) => Element::<M>::min_height(w, width),
            Widget::Text(w) => Element::<M>::min_height(w, width),
            Widget::Button(w) => w.min_height(width),
            Widget::Slider(w) => w.min_height(width),
            Widget::MouseArea(w) => w.min_height(width),
            Widget::Image(w) => Element::<M>::min_height(w, width),
        }
    }

    fn wrap(&self, width: u32) -> (r: Option<u32>) {
        match self {
            Widget::Quad(w) => Element::<M>::wrap(w, width),
            Widget::Text(w) => Element::<M>::wrap(w, width),
            Widget::Button(w) => w.wrap(width),
            Widget::Slider(w) => w.wrap(width),
            Widget::MouseArea(w) => w.wrap(width),
            Widget::Image(w) => Element::<M>::wrap(w, width),
        }
    }

    fn get_initial_state(&self) -> (r: State) {
        match self {
            Widget::Quad(w) => Element::<M>::get_initial_state(w),
            Widget::Text(w) => Element::<M>::get_initial_state(w),
            Widget::Button(w) => w.get_initial_state(),
            Widget::Slider(w) => w.get_initial_state(),
            Widget::MouseArea(w) => w.get_initial_state(),
            Widget::Image(w) => Element::<M>::get_initial_state(w),
        }
    }
}

} // verus!
