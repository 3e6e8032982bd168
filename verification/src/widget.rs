//! Small helpers for authoring widget trees.
use crate::element::Widget;
use crate::layout::Layout;
use crate::layout::LayoutDirection;
use crate::layout::Length;
use crate::quad::Quad;
use crate::tree::Node;
use vstd::prelude::*;

verus! {

/// A row that takes the available width and fits its height to its content,
/// holding the given nodes in order.
pub fn create_row<M: Copy>(elements: Vec<Node<M, Layout>>) -> (r: Node<M, Layout>)
    ensures
        r.children@ == elements@,
        r.layout.direction == LayoutDirection::Row,
        r.layout.width == Length::Grow,
        r.layout.height == Length::Shrink,
        r.layout.spacing == 0,
        r.element matches Widget::Quad(q) && q.style.fill_style is None && q.style.border_style
            is None,
{
    let mut row = Node::new(Widget::Quad(Quad::new())).row().width(Length::Grow).height(
        Length::Shrink,
    );
    let ghost all = elements@;
    let mut elements = elements;
    while elements.len() > 0
        invariant
            row.children@ + elements@ == all,
            row.layout.direction == LayoutDirection::Row,
            row.layout.width == Length::Grow,
            row.layout.height == Length::Shrink,
            row.layout.spacing == 0,
            row.element matches Widget::Quad(q) && q.style.fill_style is None
                && q.style.border_style is None,
        decreases elements@.len(),
    {
        let element = elements.remove(0);
        row.push(element);
    }
    proof {
        assert(row.children@ =~= all);
    }
    row
}

/// A column that takes the available height and fits its width to its
/// content, holding the given nodes in order.
pub fn create_column<M: Copy>(elements: Vec<Node<M, Layout>>) -> (r: Node<M, Layout>)
    ensures
        r.children@ == elements@,
        r.layout.direction == LayoutDirection::Column,
        r.layout.width == Length::Shrink,
        r.layout.height == Length::Grow,
        r.layout.spacing == 0,
        r.element matches Widget::Quad(q) && q.style.fill_style is None && q.style.border_style
            is None,
{
    let mut col = Node::new(Widget::Quad(Quad::new())).column().height(Length::Grow).width(
        Length::Shrink,
    );
    let ghost all = elements@;
    let mut elements = elements;
    while elements.len() > 0
        invariant
            col.children@ + elements@ == all,
            col.layout.direction == LayoutDirection::Column,
            col.layout.width == Length::Shrink,
            col.layout.height == Length::Grow,
            col.layout.spacing == 0,
            col.element matches Widget::Quad(q) && q.style.fill_style is None
                && q.style.border_style is None,
        decreases elements@.len(),
    {
        let element = elements.remove(0);
        col.push(element);
    }
    proof {
        assert(col.children@ =~= all);
    }
    col
}

} // verus!
