use icecube::element::Widget;
use icecube::image::Image;
use icecube::layout::pipeline_types::FlowCross;
use icecube::layout::CalculatedLayout;
use icecube::layout::Length;
use icecube::layout::Padding;
use icecube::quad::Quad;
use icecube::text::Text;
use icecube::tree::Node;

#[test]
fn shrink_doesnt_crash_text() {
    let mut root: Node<(), _> = Node::root_node(320, 240).row();
    root.name = Some("root".to_string());
    let mut text = Node::new(Widget::Text(Text::new("thisisalonglongword".to_string())));
    text.name = Some("text".to_string());
    let mut shrink = Node::new(Widget::Quad(Quad::new())).width(Length::Shrink);
    shrink.name = Some("shrink".to_string());
    shrink.push(text);
    root.push(shrink);

    let _rendered = root.calculate_layout();
}

#[test]
fn double_shrink_doesnt_crash_text() {
    let mut root: Node<(), _> = Node::root_node(320, 240).row();

    let mut container = Node::new(Widget::Quad(Quad::new())).column().width(Length::Shrink);

    let mut count_row = Node::new(Widget::Quad(Quad::new())).row().width(Length::Grow);
    let count = Node::new(Widget::Text(Text::new(format!("{}", "123"))));

    count_row.push(count);

    container.push(count_row);

    root.push(container);

    let _rendered = root.calculate_layout();
}

#[test]
fn grow_row_splits_width_evenly() {
    // a fixed 100-wide row with 8 pixels of horizontal padding, 2 of spacing
    // and three grow children: 100 - 8 - 4 = 88 to divide, 29 pixels each,
    // one leftover pixel unallocated
    let mut row: Node<(), _> = Node::new(Widget::Quad(Quad::new()))
        .width(Length::Fixed(100))
        .height(Length::Fixed(50))
        .row()
        .spacing(2)
        .padding(Padding::each(0, 3, 0, 5));
    row.push(Node::new(Widget::Quad(Quad::new())));
    row.push(Node::new(Widget::Quad(Quad::new())));
    row.push(Node::new(Widget::Quad(Quad::new())));
    let rendered = root_check(row.calculate_layout(), 100, 50);
    let widths: Vec<u32> = rendered.children.iter().map(|c| c.layout.w).collect();
    assert_eq!(widths, vec![29, 29, 29]);
    let total: u32 = widths.iter().sum();
    assert!(88 - 2 <= total && total <= 88);
    // positions accumulate: content origin, then width plus spacing
    assert_eq!(rendered.children[0].layout.x, 5);
    assert_eq!(rendered.children[1].layout.x, 36);
    assert_eq!(rendered.children[2].layout.x, 67);
}

fn root_check(
    rendered: Node<(), CalculatedLayout>,
    w: u32,
    h: u32,
) -> Node<(), CalculatedLayout> {
    assert_eq!(rendered.layout.x, 0);
    assert_eq!(rendered.layout.y, 0);
    assert_eq!(rendered.layout.w, w);
    assert_eq!(rendered.layout.h, h);
    rendered
}

#[test]
fn fixed_leaf_keeps_exact_width() {
    // a fixed-width leaf resolves to exactly its width whatever the parent
    // does with the rest
    let mut row: Node<(), _> = Node::new(Widget::Quad(Quad::new()))
        .width(Length::Fixed(100))
        .height(Length::Fixed(20))
        .row();
    row.push(Node::new(Widget::Quad(Quad::new())));
    row.push(Node::new(Widget::Quad(Quad::new())).width(Length::Fixed(37)));
    row.push(Node::new(Widget::Quad(Quad::new())));
    let rendered = row.calculate_layout();
    assert_eq!(rendered.children[1].layout.w, 37);
    // the two grow children split the remaining 63 pixels
    assert_eq!(rendered.children[0].layout.w, 31);
    assert_eq!(rendered.children[2].layout.w, 31);

    // under a shrink parent the fixed leaf also pins the parent
    let mut shrink: Node<(), _> = Node::new(Widget::Quad(Quad::new()))
        .width(Length::Fixed(200))
        .height(Length::Fixed(20))
        .row();
    let mut inner = Node::new(Widget::Quad(Quad::new())).width(Length::Shrink);
    inner.push(Node::new(Widget::Quad(Quad::new())).width(Length::Fixed(37)));
    shrink.push(inner);
    let rendered = shrink.calculate_layout();
    assert_eq!(rendered.children[0].layout.w, 37);
    assert_eq!(rendered.children[0].children[0].layout.w, 37);
}

#[test]
fn shrink_container_holds_image_minimum() {
    // a shrink-to-fit row around a growing image is never narrower than the
    // image's intrinsic minimum width
    let mut root: Node<(), _> = Node::root_node(320, 240).row();
    let image = Node::new(Widget::Image(Image::new(vec![[1, 2, 3, 4]; 10], 10, 1)));
    let mut shrink = Node::new(Widget::Quad(Quad::new())).width(Length::Shrink);
    shrink.push(image);
    root.push(shrink);
    let rendered = root.calculate_layout();
    assert!(rendered.children[0].layout.w >= 10);
    assert_eq!(rendered.children[0].children[0].layout.w, 10);
}

#[test]
fn column_stacks_children_downward() {
    let mut col: Node<(), _> = Node::new(Widget::Quad(Quad::new()))
        .width(Length::Fixed(40))
        .height(Length::Fixed(90))
        .column()
        .spacing(5);
    col.push(Node::new(Widget::Quad(Quad::new())).height(Length::Fixed(10)));
    col.push(Node::new(Widget::Quad(Quad::new())).height(Length::Fixed(20)));
    let rendered = col.calculate_layout();
    assert_eq!(rendered.children[0].layout.y, 0);
    assert_eq!(rendered.children[0].layout.h, 10);
    assert_eq!(rendered.children[1].layout.y, 15);
    assert_eq!(rendered.children[1].layout.h, 20);
    // cross axis: both children get the full width
    assert_eq!(rendered.children[0].layout.w, 40);
    assert_eq!(rendered.children[1].layout.w, 40);
}

#[test]
fn stack_children_share_the_origin() {
    let mut stack: Node<(), _> = Node::new(Widget::Quad(Quad::new()))
        .width(Length::Fixed(64))
        .height(Length::Fixed(48))
        .stack()
        .padding(Padding::from(2));
    stack.push(Node::new(Widget::Quad(Quad::new())));
    stack.push(Node::new(Widget::Quad(Quad::new())));
    let rendered = stack.calculate_layout();
    for child in rendered.children.iter() {
        assert_eq!(child.layout.x, 2);
        assert_eq!(child.layout.y, 2);
        assert_eq!(child.layout.w, 60);
        assert_eq!(child.layout.h, 44);
    }
}

#[test]
fn create_row_and_column_set_policies() {
    let row: Node<(), _> = icecube::widget::create_row(vec![
        Node::new(Widget::Quad(Quad::new())),
        Node::new(Widget::Quad(Quad::new())),
    ]);
    assert_eq!(row.children.len(), 2);
    let col: Node<(), _> = icecube::widget::create_column(vec![Node::new(Widget::Quad(
        Quad::new(),
    ))]);
    assert_eq!(col.children.len(), 1);
}

#[test]
fn text_wrap_pins_height() {
    // "ab cd" in the default 5x7 font with 1-pixel gaps: both words fit one
    // row at width 100 (8 pixels tall), and wrap to two rows at width 10
    let mut root: Node<(), _> = Node::root_node(100, 100).row();
    let text = Node::new(Widget::Text(Text::new("ab cd".to_string())));
    let mut holder = Node::new(Widget::Quad(Quad::new())).width(Length::Fixed(100)).height(
        Length::Shrink,
    );
    holder.push(text);
    root.push(holder);
    let rendered = root.calculate_layout();
    assert_eq!(rendered.children[0].children[0].layout.h, 8);

    let mut root: Node<(), _> = Node::root_node(100, 100).row();
    let text = Node::new(Widget::Text(Text::new("ab cd".to_string())));
    let mut holder = Node::new(Widget::Quad(Quad::new())).width(Length::Fixed(10)).height(
        Length::Shrink,
    );
    holder.push(text);
    root.push(holder);
    let rendered = root.calculate_layout();
    assert_eq!(rendered.children[0].children[0].layout.h, 16);
}

#[test]
fn shrink_height_text() {
    let mut root: Node<(), _> = Node::root_node(320, 240).row();

    // This fills the screen, causing the screen to clear each frame
    let mut container = Node::new(Widget::Quad(Quad::new())).column();

    let mut count_row = Node::new(Widget::Quad(Quad::new().border_thickness(1)))
        .row()
        .height(Length::Shrink);
    count_row.name = Some("count row".to_string());
    let mut count = Node::new(Widget::Text(Text::new("12".to_string())));
    count.name = Some("count".to_string());
    let mut count_container = Node::new(Widget::Quad(Quad::new()));
    count_container.name = Some("count container".to_string());
    count_container.push(count);

    count_row.push(Node::new(Widget::Quad(Quad::new().border_thickness(1))));
    count_row.push(count_container);
    count_row.push(Node::new(Widget::Quad(Quad::new().border_thickness(1))));

    let mut button_row = Node::new(Widget::Quad(Quad::new().border_thickness(1))).row();
    button_row.push(Node::new(Widget::Quad(Quad::new())).width(Length::Fixed(2)));

    container.name = Some("container".to_string());
    container.push(Node::new(Widget::Quad(Quad::new())));
    container.push(count_row);
    container.push(button_row);
    container.push(Node::new(Widget::Quad(Quad::new())));

    root.push(Node::new(Widget::Quad(Quad::new())));
    root.push(container);
    root.push(Node::new(Widget::Quad(Quad::new())));

    let rendered = root.calculate_layout();
    let r_container = &rendered.children[1];
    assert_eq!(r_container.name, Some("container".to_string()));
    let r_count_row = &r_container.children[1];
    assert_eq!(r_count_row.name, Some("count row".to_string()));
    let r_count_container = &r_count_row.children[1];
    assert_eq!(r_count_container.name, Some("count container".to_string()));
    let r_count = &r_count_container.children[0];
    assert_eq!(r_count.name, Some("count".to_string()));

    assert!(r_container.layout.h > 0); // container grows into the root
    assert!(r_count.layout.h > 0); // the wrapped text pins its height
    // a shrink row over grow-only children fits to their zero contribution:
    // growing children carry no intrinsic height of their own
    assert_eq!(r_count_row.layout.h, 0);
    assert_eq!(r_count_container.layout.h, 0);
}

#[test]
fn rectangles_and_padding_helpers() {
    let r = CalculatedLayout::new(3, 4, 10, 5);
    assert!(r.contains((3, 4)));
    assert!(r.contains((12, 8)));
    assert!(!r.contains((13, 4)));
    assert!(!r.contains((3, 9)));
    assert!(!r.contains((2, 4)));

    // summed padding comes back flow axis first
    let mut node: Node<(), _> = Node::new(Widget::Quad(Quad::new()))
        .padding(Padding::each(1, 2, 3, 4))
        .column();
    assert_eq!(node.layout.summed_padding(), FlowCross(4, 6));
    node = node.row();
    assert_eq!(node.layout.summed_padding(), FlowCross(6, 4));
}
