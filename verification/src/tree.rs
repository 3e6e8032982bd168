//! The layout tree: an owned tree of widgets with per-node layout
//! parameters, and the dispatch walk that pairs a positioned tree with the
//! persistent state tree to produce at most one message per frame.
use crate::buffer::Buffer;
use crate::element::Element;
use crate::element::Emitted;
use crate::element::Widget;
use crate::layout::CalculatedLayout;
use crate::layout::Layout;
use crate::layout::LayoutDirection;
use crate::layout::Length;
use crate::layout::Padding;
use crate::quad::Quad;
use crate::state_tree::congruent;
use crate::state_tree::StateNode;
use crate::Input;
use vstd::prelude::*;

verus! {

/// One node of the widget tree: a widget, this node's layout parameters at
/// the current pipeline stage, and the ordered children (their order is the
/// paint and flow order).
pub struct Node<M, LayoutStage> {
    pub children: Vec<Node<M, LayoutStage>>,
    pub element: Widget<M>,
    pub layout: LayoutStage,
    pub name: Option<String>,
}

/// The layout parameters a freshly authored node starts with: grow on both
/// axes, no padding, row flow, no spacing.
pub open spec fn default_layout() -> Layout {
    Layout {
        width: Length::Grow,
        height: Length::Grow,
        padding: Padding { top: 0, right: 0, bottom: 0, left: 0 },
        direction: LayoutDirection::Row,
        spacing: 0,
    }
}

impl<M: Copy> Node<M, Layout> {
    pub fn new(element: Widget<M>) -> (r: Self)
        ensures
            r.children@.len() == 0,
            r.element == element,
            r.layout == default_layout(),
            r.name is None,
    {
        Self {
            children: Vec::new(),
            element,
            layout: Layout {
                width: Length::Grow,
                height: Length::Grow,
                padding: Padding::zero(),
                direction: LayoutDirection::Row,
                spacing: 0,
            },
            name: None,
        }
    }

    /// The fixed-size root the pipeline requires: an undecorated quad of
    /// exactly the surface size, with one pixel of padding.
    pub fn root_node(width: usize, height: usize) -> (r: Self)
        requires
            width <= u32::MAX,
            height <= u32::MAX,
        ensures
            r.children@.len() == 0,
            r.layout.width == Length::Fixed(width as u32),
            r.layout.height == Length::Fixed(height as u32),
            r.layout.padding == (Padding { top: 1, right: 1, bottom: 1, left: 1 }),
            r.layout.direction == LayoutDirection::Row,
            r.layout.spacing == 0,
            r.element matches Widget::Quad(q) && q.style.fill_style is None
                && q.style.border_style is None,
            r.name matches Some(n) && n@ == "root"@,
    {
        let window = Quad::new().style(
            crate::quad::QuadStyle { fill_style: None, border_style: None },
        );
        Self {
            children: Vec::new(),
            element: Widget::Quad(window),
            layout: Layout {
                width: Length::Fixed(width as u32),
                height: Length::Fixed(height as u32),
                padding: Padding { top: 1, right: 1, bottom: 1, left: 1 },
                direction: LayoutDirection::Row,
                spacing: 0,
            },
            name: Some("root".to_owned()),
        }
    }

    /// An empty, undecorated node that grows on both axes, for taking up
    /// leftover space.
    pub fn spacer() -> (r: Self)
        ensures
            r.children@.len() == 0,
            r.layout == default_layout(),
            r.name is None,
            r.element matches Widget::Quad(q) && q.style.fill_style is None
                && q.style.border_style is None,
    {
        Self {
            children: Vec::new(),
            element: Widget::Quad(Quad::new()),
            layout: Layout {
                width: Length::Grow,
                height: Length::Grow,
                padding: Padding::zero(),
                direction: LayoutDirection::Row,
                spacing: 0,
            },
            name: None,
        }
    }

    pub fn width(self, width: Length) -> (r: Self)
        ensures
            r.layout.width == width,
            r.layout.height == self.layout.height,
            r.layout.padding == self.layout.padding,
            r.layout.direction == self.layout.direction,
            r.layout.spacing == self.layout.spacing,
            r.children == self.children,
            r.element == self.element,
            r.name == self.name,
    {
        Self { layout: Layout { width, ..self.layout }, ..self }
    }

    pub fn height(self, height: Length) -> (r: Self)
        ensures
            r.layout.height == height,
            r.layout.width == self.layout.width,
            r.layout.padding == self.layout.padding,
            r.layout.direction == self.layout.direction,
            r.layout.spacing == self.layout.spacing,
            r.children == self.children,
            r.element == self.element,
            r.name == self.name,
    {
        Self { layout: Layout { height, ..self.layout }, ..self }
    }

    pub fn padding(self, padding: Padding) -> (r: Self)
        ensures
            r.layout.padding == padding,
            r.layout.width == self.layout.width,
            r.layout.height == self.layout.height,
            r.layout.direction == self.layout.direction,
            r.layout.spacing == self.layout.spacing,
            r.children == self.children,
            r.element == self.element,
            r.name == self.name,
    {
        Self { layout: Layout { padding, ..self.layout }, ..self }
    }

    pub fn spacing(self, spacing: u32) -> (r: Self)
        ensures
            r.layout.spacing == spacing,
            r.layout.width == self.layout.width,
            r.layout.height == self.layout.height,
            r.layout.padding == self.layout.padding,
            r.layout.direction == self.layout.direction,
            r.children == self.children,
            r.element == self.element,
            r.name == self.name,
    {
        Self { layout: Layout { spacing, ..self.layout }, ..self }
    }

    pub fn stack(self) -> (r: Self)
        ensures
            r.layout.direction == LayoutDirection::Stack,
            r.layout.width == self.layout.width,
            r.layout.height == self.layout.height,
            r.layout.padding == self.layout.padding,
            r.layout.spacing == self.layout.spacing,
            r.children == self.children,
            r.element == self.element,
            r.name == self.name,
    {
        Self { layout: Layout { direction: LayoutDirection::Stack, ..self.layout }, ..self }
    }

    pub fn row(self) -> (r: Self)
        ensures
            r.layout.direction == LayoutDirection::Row,
            r.layout.width == self.layout.width,
            r.layout.height == self.layout.height,
            r.layout.padding == self.layout.padding,
            r.layout.spacing == self.layout.spacing,
            r.children == self.children,
            r.element == self.element,
            r.name == self.name,
    {
        Self { layout: Layout { direction: LayoutDirection::Row, ..self.layout }, ..self }
    }

    pub fn column(self) -> (r: Self)
        ensures
            r.layout.direction == LayoutDirection::Column,
            r.layout.width == self.layout.width,
            r.layout.height == self.layout.height,
            r.layout.padding == self.layout.padding,
            r.layout.spacing == self.layout.spacing,
            r.children == self.children,
            r.element == self.element,
            r.name == self.name,
    {
        Self { layout: Layout { direction: LayoutDirection::Column, ..self.layout }, ..self }
    }

    pub fn push(&mut self, child: Self)
        ensures
            final(self).children@ == old(self).children@.push(child),
            final(self).element == old(self).element,
            final(self).layout == old(self).layout,
            final(self).name == old(self).name,
    {
        self.children.push(child);
    }

    pub fn with_element(self, element: Widget<M>) -> (r: Self)
        ensures
            r.element == element,
            r.layout == self.layout,
            r.children == self.children,
            r.name == self.name,
    {
        Self { element, ..self }
    }
}

/// The outcome of dispatching one node against its state subtree: the
/// node's own widget sees the input first and updates its slot; if it stays
/// silent, the children are consulted in order and the first message wins,
/// leaving every later subtree's state untouched.
pub open spec fn dispatch_rel<M: Copy>(
    n: Node<M, CalculatedLayout>,
    s0: StateNode,
    input: Input,
    s1: StateNode,
    r: Option<Emitted<M>>,
) -> bool
    decreases n, n.children.len() + 1,
{
    let own = n.element.spec_message(s0.state, input, n.layout);
    &&& s1.state == n.element.spec_state_after(s0.state, input, n.layout)
    &&& s1.children.len() == s0.children.len()
    &&& if own is Some {
        r == own && s1.children@ == s0.children@
    } else {
        dispatch_children_rel(n, s0.children@, input, s1.children@, r, 0)
    }
}

/// The outcome of dispatching the children from index `i` on: the first
/// child that answers provides the message, and every child after it keeps
/// its state.
pub open spec fn dispatch_children_rel<M: Copy>(
    n: Node<M, CalculatedLayout>,
    ss0: Seq<StateNode>,
    input: Input,
    ss1: Seq<StateNode>,
    r: Option<Emitted<M>>,
    i: int,
) -> bool
    decreases n, n.children.len() - i,
{
    if i < 0 || i >= n.children.len() || i >= ss0.len() || ss1.len() != ss0.len() {
        &&& r is None
        &&& forall|j: int| i <= j < ss0.len() ==> ss1[j] == ss0[j]
        &&& ss1.len() == ss0.len()
    } else {
        ||| {
            &&& r is Some
            &&& dispatch_rel(n.children[i], ss0[i], input, ss1[i], r)
            &&& forall|j: int| i < j < ss0.len() ==> ss1[j] == ss0[j]
        }
        ||| {
            &&& dispatch_rel(n.children[i], ss0[i], input, ss1[i], None::<Emitted<M>>)
            &&& dispatch_children_rel(n, ss0, input, ss1, r, i + 1)
        }
    }
}

/// Which states the children's dispatch depends on: only the slots from the
/// starting index onward, so state already written for earlier children does
/// not disturb the relation.
pub proof fn lemma_dispatch_children_frame<M: Copy>(
    n: Node<M, CalculatedLayout>,
    ss0a: Seq<StateNode>,
    ss0b: Seq<StateNode>,
    input: Input,
    ss1: Seq<StateNode>,
    r: Option<Emitted<M>>,
    i: int,
)
    requires
        ss0a.len() == ss0b.len(),
        forall|j: int| i <= j < ss0a.len() ==> ss0a[j] == ss0b[j],
        dispatch_children_rel(n, ss0a, input, ss1, r, i),
    ensures
        dispatch_children_rel(n, ss0b, input, ss1, r, i),
    decreases n, n.children.len() - i,
{
    if i < 0 || i >= n.children.len() || i >= ss0a.len() || ss1.len() != ss0a.len() {
    } else {
        assert(ss0a[i] == ss0b[i]);
        let took_first = {
            &&& r is Some
            &&& dispatch_rel(n.children[i], ss0a[i], input, ss1[i], r)
            &&& forall|j: int| i < j < ss0a.len() ==> ss1[j] == ss0a[j]
        };
        if !took_first {
            lemma_dispatch_children_frame(n, ss0a, ss0b, input, ss1, r, i + 1);
        }
    }
}

impl<M: Copy> Node<M, CalculatedLayout> {
    /// Paints this node, then its children in order, so later siblings
    /// cover earlier ones.
    pub fn draw_recursive(&self, frame: &mut Buffer, accum_position: (u32, u32))
        ensures
            final(frame).width == old(frame).width,
            final(frame).data@.len() == old(frame).data@.len(),
        decreases *self,
    {
        self.element.draw(frame, self.layout);
        let mut i: usize = 0;
        while i < self.children.len()
            invariant
                frame.width == old(frame).width,
                frame.data@.len() == old(frame).data@.len(),
            decreases self.children@.len() - i,
        {
            self.children[i].draw_recursive(frame, (0, 0));
            i = i + 1;
        }
    }

    /// Walks the positioned tree and the state tree in lockstep, depth
    /// first, and returns the first message any widget produces.
    pub fn get_message(&self, state_tree: &mut StateNode, input: &Input) -> (r: Option<Emitted<M>>)
        requires
            congruent(*self, *old(state_tree)),
        ensures
            dispatch_rel(*self, *old(state_tree), *input, *final(state_tree), r),
            congruent(*self, *final(state_tree)),
        decreases *self, self.children@.len() + 1,
    {
        let message = self.element.get_message(&mut state_tree.state, input, self.layout);
        if message.is_some() {
            return message;
        }
        self.get_message_children(state_tree, input, 0)
    }

    /// Consults the children from index `i` on, in order, stopping at the
    /// first message.
    fn get_message_children(&self, state_tree: &mut StateNode, input: &Input, i: usize) -> (r:
        Option<Emitted<M>>)
        requires
            old(state_tree).children@.len() == self.children@.len(),
            forall|j: int|
                0 <= j < self.children@.len() ==> congruent(
                    #[trigger] self.children[j],
                    old(state_tree).children[j],
                ),
        ensures
            dispatch_children_rel(
                *self,
                old(state_tree).children@,
                *input,
                final(state_tree).children@,
                r,
                i as int,
            ),
            final(state_tree).state == old(state_tree).state,
            final(state_tree).children@.len() == old(state_tree).children@.len(),
            forall|j: int|
                0 <= j < i && j < self.children@.len() ==> final(state_tree).children[j] == old(
                    state_tree,
                ).children[j],
            forall|j: int|
                0 <= j < self.children@.len() ==> congruent(
                    #[trigger] self.children[j],
                    final(state_tree).children[j],
                ),
        decreases *self, self.children@.len() - i,
    {
        if i >= self.children.len() {
            return None;
        }
        let ghost pre = *state_tree;
        let r0 = self.children[i].get_message(&mut state_tree.children[i], input);
        proof {
            assert(dispatch_rel(
                self.children[i as int],
                pre.children@[i as int],
                *input,
                state_tree.children@[i as int],
                r0,
            ));
        }
        if r0.is_some() {
            return r0;
        }
        let ghost mid = *state_tree;
        let out = self.get_message_children(state_tree, input, i + 1);
        proof {
            assert(dispatch_children_rel(
                *self,
                mid.children@,
                *input,
                state_tree.children@,
                out,
                i + 1,
            ));
            lemma_dispatch_children_frame(
                *self,
                mid.children@,
                pre.children@,
                *input,
                state_tree.children@,
                out,
                i + 1,
            );
            assert(state_tree.children@[i as int] == mid.children@[i as int]);
            assert(dispatch_rel(
                self.children[i as int],
                pre.children@[i as int],
                *input,
                state_tree.children@[i as int],
                r0,
            ));
        }
        out
    }
}

} // verus!
