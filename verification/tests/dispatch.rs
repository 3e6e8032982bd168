use icecube::button::Button;
use icecube::element::Emitted;
use icecube::element::Widget;
use icecube::mouse_area::MouseArea;
use icecube::quad::Quad;
use icecube::slider::Slider;
use icecube::state_tree::State;
use icecube::state_tree::StateNode;
use icecube::tree::Node;
use icecube::Input;

#[derive(Clone, Copy, Debug, PartialEq, Eq)]
enum Msg {
    Increment,
    Decrement,
}

fn input(pos: Option<(u32, u32)>, prev: Option<(u32, u32)>, down: bool, released: bool) -> Input {
    Input { mouse_released: released, mouse_down: down, mouse_pos: pos, prev_mouse_pos: prev }
}

/// A 100x100 surface whose single child fills the content area (1..99).
fn tree_with(widget: Widget<Msg>) -> Node<Msg, icecube::layout::CalculatedLayout> {
    let mut root: Node<Msg, _> = Node::root_node(100, 100).row();
    root.push(Node::new(widget));
    root.calculate_layout()
}

#[test]
fn button_emits_only_on_release() {
    let rendered = tree_with(Widget::Button(
        Button::new().on_press(Msg::Increment).whenever_down(Msg::Decrement),
    ));
    let mut state = StateNode::new(&rendered);

    // hover only: no message, however long the pointer sits there
    let r = rendered.get_message(&mut state, &input(Some((50, 50)), None, false, false));
    assert!(r.is_none());

    // held down inside: the held-down message, not the press
    let r = rendered.get_message(&mut state, &input(Some((50, 50)), None, true, false));
    assert!(matches!(r, Some(Emitted::Plain(Msg::Decrement))));

    // released inside: the press message
    let r = rendered.get_message(&mut state, &input(Some((50, 50)), None, false, true));
    assert!(matches!(r, Some(Emitted::Plain(Msg::Increment))));

    // released outside: nothing
    let r = rendered.get_message(&mut state, &input(Some((0, 0)), None, false, true));
    assert!(r.is_none());
}

#[test]
fn mouse_area_reports_relative_position() {
    let rendered = tree_with(Widget::MouseArea(MouseArea::new().on_hover(Msg::Increment)));
    let mut state = StateNode::new(&rendered);
    let r = rendered.get_message(&mut state, &input(Some((50, 40)), None, false, false));
    match r {
        Some(Emitted::At(Msg::Increment, rel)) => assert_eq!(rel, (49, 39)),
        _ => panic!("unexpected dispatch result"),
    }
}

#[test]
fn mouse_area_exit_fires_exactly_once() {
    let rendered = tree_with(Widget::MouseArea(MouseArea::new().on_exit(Msg::Decrement)));
    let mut state = StateNode::new(&rendered);

    // inside, nothing configured for hover: silent
    let r = rendered.get_message(&mut state, &input(Some((50, 50)), None, false, false));
    assert!(r.is_none());

    // the frame the pointer crosses out: exit fires
    let r = rendered.get_message(&mut state, &input(Some((0, 0)), Some((50, 50)), false, false));
    assert!(matches!(r, Some(Emitted::Plain(Msg::Decrement))));

    // pointer stays outside: the previous position is now outside too, so
    // the exit cannot fire again
    let r = rendered.get_message(&mut state, &input(Some((0, 0)), Some((0, 0)), false, false));
    assert!(r.is_none());
}

#[test]
fn slider_drag_survives_leaving_the_bounds() {
    let rendered = tree_with(Widget::Slider(
        Slider::new(0, 98, 0).on_drag(Msg::Increment),
    ));
    let mut state = StateNode::new(&rendered);
    assert_eq!(
        state.children[0].state,
        State::Slider(icecube::slider::State { is_dragging: false })
    );

    // press inside: the drag starts; the slider rectangle is (1,1,98,98),
    // so pointer column 50 selects 98 * 49 / 98 = 49
    let r = rendered.get_message(&mut state, &input(Some((50, 50)), None, true, false));
    assert!(matches!(r, Some(Emitted::Value(Msg::Increment, 49))));
    assert_eq!(
        state.children[0].state,
        State::Slider(icecube::slider::State { is_dragging: true })
    );

    // next frame the pointer has left the bounds but stays down: the
    // persisted state keeps the drag alive even though this widget tree is
    // a brand-new object
    let rebuilt = tree_with(Widget::Slider(
        Slider::new(0, 98, 49).on_drag(Msg::Increment),
    ));
    let r = rebuilt.get_message(&mut state, &input(Some((0, 50)), Some((50, 50)), true, false));
    assert!(matches!(r, Some(Emitted::Value(Msg::Increment, 0))));
    assert_eq!(
        state.children[0].state,
        State::Slider(icecube::slider::State { is_dragging: true })
    );

    // the release ends the drag
    let r = rebuilt.get_message(&mut state, &input(Some((0, 50)), Some((0, 50)), false, true));
    assert!(r.is_none());
    assert_eq!(
        state.children[0].state,
        State::Slider(icecube::slider::State { is_dragging: false })
    );
}

#[test]
fn first_match_wins_in_tree_order() {
    let mut root: Node<Msg, _> = Node::root_node(100, 100).row();
    root.push(Node::new(Widget::Button(Button::new().on_press(Msg::Increment))));
    root.push(Node::new(Widget::Button(Button::new().on_press(Msg::Decrement))));
    let rendered = root.calculate_layout();
    let mut state = StateNode::new(&rendered);
    // the pointer sits on the boundary column where only the second button
    // lies: children split 98 columns into 49 + 49 at x = 1 and x = 50
    let r = rendered.get_message(&mut state, &input(Some((30, 50)), None, false, true));
    assert!(matches!(r, Some(Emitted::Plain(Msg::Increment))));
    let r = rendered.get_message(&mut state, &input(Some((70, 50)), None, false, true));
    assert!(matches!(r, Some(Emitted::Plain(Msg::Decrement))));
}

#[test]
fn quad_and_text_stay_silent() {
    let rendered = tree_with(Widget::Quad(Quad::new().fill([9, 9, 9, 255])));
    let mut state = StateNode::new(&rendered);
    let r = rendered.get_message(&mut state, &input(Some((50, 50)), None, true, true));
    assert!(r.is_none());
}
