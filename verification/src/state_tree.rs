//! The persistent interaction-state tree: a shadow tree structurally
//! congruent to the widget tree, holding each widget's state across the
//! per-frame rebuild of the widget tree itself.
use crate::element::Element;
use crate::element::Widget;
use crate::tree::Node;
use vstd::prelude::*;

verus! {

/// One widget's persisted state: nothing, or the state of the one stateful
/// widget kind.
#[derive(Clone, Copy, Debug, PartialEq, Eq, Structural)]
pub enum State {
    Stateless,
    Slider(crate::slider::State),
}

impl State {
    /// Wraps a slider's state for storage in the tree.
    pub fn new(state: crate::slider::State) -> (r: State)
        ensures
            r == State::Slider(state),
    {
        State::Slider(state)
    }

    /// The slider state held in this slot. Asking a stateless slot is the
    /// congruence violation the toolkit treats as a programming error, so it
    /// is ruled out here rather than handled.
    pub fn downcast_mut(&mut self) -> (r: &mut crate::slider::State)
        requires
            *old(self) is Slider,
        ensures
            *r == (*old(self))->Slider_0,
            *final(self) == State::Slider(*final(r)),
    {
        match self {
            State::Slider(s) => s,
            State::Stateless => vstd::pervasive::unreached(),
        }
    }
}

/// A tree of persisted widget state, mirroring the widget tree's shape.
pub struct StateNode {
    pub state: State,
    pub children: Vec<StateNode>,
}

/// Structural congruence between a widget tree and a state tree: same
/// arity in the same order at every node, each slot of the kind its widget
/// expects. Dispatch walks the two trees in lockstep and relies on this.
pub open spec fn congruent<M: Copy, S>(n: Node<M, S>, s: StateNode) -> bool
    decreases n,
{
    &&& n.element.spec_state_matches(s.state)
    &&& s.children.len() == n.children.len()
    &&& forall|i: int|
        0 <= i < n.children.len() ==> congruent(#[trigger] n.children[i], s.children[i])
}

/// A freshly built state tree: congruent to the widget tree with every slot,
/// at every depth, holding exactly its widget's initial state.
pub open spec fn freshly_seeded<M: Copy, S>(n: Node<M, S>, s: StateNode) -> bool
    decreases n,
{
    &&& s.state == n.element.spec_initial_state()
    &&& s.children.len() == n.children.len()
    &&& forall|i: int|
        0 <= i < n.children.len() ==> freshly_seeded(#[trigger] n.children[i], s.children[i])
}

impl StateNode {
    /// Builds the state tree for a freshly authored widget tree, seeding
    /// every slot from its widget's initial state.
    pub fn new<M: Copy, S>(node: &Node<M, S>) -> (r: StateNode)
        ensures
            congruent(*node, r),
            freshly_seeded(*node, r),
            r.state == node.element.spec_initial_state(),
        decreases node,
    {
        let mut children: Vec<StateNode> = Vec::new();
        let mut i: usize = 0;
        while i < node.children.len()
            invariant
                0 <= i <= node.children.len(),
                children@.len() == i,
                forall|j: int| 0 <= j < i ==> congruent(#[trigger] node.children[j], children[j]),
                forall|j: int|
                    0 <= j < i ==> freshly_seeded(#[trigger] node.children[j], children[j]),
            decreases node.children.len() - i,
        {
            let child = StateNode::new(&node.children[i]);
            children.push(child);
            i = i + 1;
        }
        StateNode { state: node.element.get_initial_state(), children }
    }
}

} // verus!
