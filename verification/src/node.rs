//! The virtual tree: a tagged union of an empty marker, an element with a tag
//! and ordered children, and a text leaf.  Values are immutable once built;
//! reconciliation only reads two snapshots.

use vstd::prelude::*;

verus! {

/// One node of a virtual tree.
///
/// `Empty` is a first-class value meaning "nothing mounted here", not an
/// absence marker.  Children of an `Element` are matched purely by position
/// during reconciliation; their order is significant.
pub enum VirtualDomNode {
    Empty,
    Element { node_type: String, children: Vec<VirtualDomNode> },
    Text { text: String },
}

/// The mathematical shape of a virtual tree: tags and text as character
/// sequences, children as a sequence of shapes.
#[verifier::ext_equal]
pub enum NodeView {
    Empty,
    Element { tag: Seq<char>, children: Seq<NodeView> },
    Text { text: Seq<char> },
}

/// The shape of a tree value.
pub open spec fn view_of(n: VirtualDomNode) -> NodeView
    decreases n, 0int,
    via view_of_decreases
{
    match n {
        VirtualDomNode::Empty => NodeView::Empty,
        VirtualDomNode::Text { text } => NodeView::Text { text: text@ },
        VirtualDomNode::Element { node_type, children } => NodeView::Element {
            tag: node_type@,
            children: views_of(children@, 0),
        },
    }
}

/// The shapes of the tree values `cs[from..]`, in order.
pub open spec fn views_of(cs: Seq<VirtualDomNode>, from: int) -> Seq<NodeView>
    decreases cs, cs.len() - from,
{
    if 0 <= from < cs.len() {
        seq![view_of(cs[from])] + views_of(cs, from + 1)
    } else {
        Seq::empty()
    }
}

#[via_fn]
proof fn view_of_decreases(n: VirtualDomNode) {
    broadcast use vstd::std_specs::vec::group_vec_axioms;

    if let VirtualDomNode::Element { node_type, children } = n {
        assert(decreases_to!(children => children@));
    }
}

/// `views_of(cs, from)` lists exactly the shapes of `cs[from]`, `cs[from + 1]`, ...
pub proof fn lemma_views_of_index(cs: Seq<VirtualDomNode>, from: int)
    requires
        0 <= from <= cs.len(),
    ensures
        views_of(cs, from).len() == cs.len() - from,
        forall|i: int|
            from <= i < cs.len() ==> views_of(cs, from)[i - from] == view_of(#[trigger] cs[i]),
    decreases cs.len() - from,
{
    if from < cs.len() {
        lemma_views_of_index(cs, from + 1);
    }
}

impl View for VirtualDomNode {
    type V = NodeView;

    open spec fn view(&self) -> NodeView {
        view_of(*self)
    }
}

/// Builds an element node from a tag and its ordered children.
pub fn h(node_type: &str, children: Vec<VirtualDomNode>) -> (n: VirtualDomNode)
    ensures
        n@ matches NodeView::Element { tag, children: kids } && tag == node_type@ && kids.len()
            == children@.len() && forall|i: int|
            0 <= i < children@.len() ==> #[trigger] kids[i] == children@[i]@,
{
    let n = VirtualDomNode::Element { node_type: node_type.to_owned(), children };
    proof {
        lemma_views_of_index(children@, 0);
    }
    n
}

/// Builds a text leaf.
pub fn t(text: &str) -> (n: VirtualDomNode)
    ensures
        n@ == (NodeView::Text { text: text@ }),
{
    VirtualDomNode::Text { text: text.to_owned() }
}

} // verus!
