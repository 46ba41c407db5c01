//! The reconciler: given the previously rendered tree and a newly requested
//! one, issue the minimal mutation-sink calls that transform the one into the
//! other, walking both trees top-down and matching children by position.
//!
//! The spec functions here pin the behaviour down exactly: [`update_ops`] is
//! the precise sequence of mutations a call issues, and [`update_count`] the
//! precise number of fresh handles it consumes.  The executable functions are
//! proved to produce exactly those.

use vstd::prelude::*;

use crate::node::NodeView;
use crate::node::VirtualDomNode;
use crate::node::lemma_views_of_index;
use crate::node::view_of;
use crate::node::views_of;
use crate::sink::DomNode;
use crate::sink::OpView;
use crate::sink::Sink;

verus! {

broadcast use vstd::std_specs::vec::group_vec_axioms;

/// The number of positions at which old and new children are diffed pairwise.
pub open spec fn min_len(nch: Seq<NodeView>, och: Seq<NodeView>) -> int {
    if nch.len() <= och.len() {
        nch.len() as int
    } else {
        och.len() as int
    }
}

/// How many fresh handles building the subtree `n` consumes: one per node.
pub open spec fn build_count(n: NodeView) -> int
    decreases n, 0int,
{
    match n {
        NodeView::Empty => 1,
        NodeView::Text { text } => 1,
        NodeView::Element { tag, children } => 1 + build_count_from(children, 0),
    }
}

/// Handles consumed by building the subtrees `cs[from..]`.
pub open spec fn build_count_from(cs: Seq<NodeView>, from: int) -> int
    decreases cs, cs.len() - from,
{
    if 0 <= from < cs.len() {
        build_count(cs[from]) + build_count_from(cs, from + 1)
    } else {
        0
    }
}

/// The mutations issued by building the subtree `n` from scratch, when the
/// sink's next fresh handle is `c`: create the node (under handle `c`), then
/// for each child in order, build it and append it.  An empty node
/// materializes as an empty text node.
pub open spec fn build_ops(n: NodeView, c: int) -> Seq<OpView>
    decreases n, 0int,
{
    match n {
        NodeView::Empty => seq![OpView::CreateText { text: Seq::empty(), handle: c }],
        NodeView::Text { text } => seq![OpView::CreateText { text: text, handle: c }],
        NodeView::Element { tag, children } => seq![
            OpView::CreateElement { tag: tag, handle: c },
        ] + build_from_ops(children, 0, c, c + 1),
    }
}

/// The mutations issued by building the subtrees `cs[from..]` in order and
/// appending each under `parent`, when the next fresh handle is `c`.
pub open spec fn build_from_ops(cs: Seq<NodeView>, from: int, parent: int, c: int) -> Seq<OpView>
    decreases cs, cs.len() - from,
{
    if 0 <= from < cs.len() {
        build_ops(cs[from], c) + seq![OpView::Append { parent, child: c }] + build_from_ops(
            cs,
            from + 1,
            parent,
            c + build_count(cs[from]),
        )
    } else {
        Seq::empty()
    }
}

/// Removals that tear the children `from..upto` of `parent` down in
/// descending index order: `upto - 1` first, `from` last.  Descending order
/// is index-safe against a live, shrinking child list: each removal's index
/// is below the live length at the moment it is applied.
pub open spec fn remove_desc_ops(parent: int, from: int, upto: int) -> Seq<OpView>
    decreases upto - from,
{
    if from < upto {
        remove_desc_ops(parent, from + 1, upto) + seq![
            OpView::RemoveChild { parent, index: from },
        ]
    } else {
        Seq::empty()
    }
}

/// How many fresh handles reconciling `old` into `new` consumes.
pub open spec fn update_count(new: NodeView, old: NodeView) -> int
    decreases old, new, 2int,
{
    match old {
        NodeView::Empty => match new {
            NodeView::Empty => 0,
            _ => build_count(new),
        },
        NodeView::Element { tag: old_tag, children: old_ch } => match new {
            NodeView::Empty => 0,
            NodeView::Element { tag: new_tag, children: new_ch } => if old_tag == new_tag {
                children_count(new_ch, old_ch)
            } else {
                build_count(new)
            },
            NodeView::Text { text } => build_count(new),
        },
        NodeView::Text { text: old_text } => match new {
            NodeView::Empty => 0,
            NodeView::Element { tag, children } => build_count(new),
            NodeView::Text { text: new_text } => if old_text == new_text {
                0
            } else {
                build_count(new)
            },
        },
    }
}

/// Handles consumed by diffing two same-tag elements' child lists: one per
/// pairwise position (the re-fetched container), the subtrees of appended
/// tail children, and one more re-fetch if a tail is appended or removed.
pub open spec fn children_count(nch: Seq<NodeView>, och: Seq<NodeView>) -> int
    decreases och, nch, och.len() + nch.len() + 1,
{
    zip_count(nch, och, 0) + if nch.len() > och.len() {
        1 + build_count_from(nch, och.len() as int)
    } else if och.len() > nch.len() {
        1
    } else {
        0
    }
}

/// Handles consumed by the pairwise diff of positions `i..min_len`.
pub open spec fn zip_count(nch: Seq<NodeView>, och: Seq<NodeView>, i: int) -> int
    decreases och, nch, min_len(nch, och) - i,
{
    if 0 <= i < min_len(nch, och) {
        1 + update_count(nch[i], och[i]) + zip_count(nch, och, i + 1)
    } else {
        0
    }
}

/// The mutations issued by building `new` from scratch and replacing the
/// child at `index` under `parent` with it.
pub open spec fn replace_ops(new: NodeView, parent: int, index: int, c: int) -> Seq<OpView> {
    build_ops(new, c) + seq![OpView::ReplaceChild { parent, index, child: c }]
}

/// The exact sequence of mutations reconciliation issues to transform what is
/// mounted at position `index` under `parent` from `old`'s shape to `new`'s
/// shape, when the sink's next fresh handle is `c`.
///
/// The decision is a total case table over the two variants: nothing over
/// nothing is a no-op; anything over nothing is built and appended; nothing
/// over anything removes the mounted child; two elements with the same tag
/// keep the mounted container and diff their children by position; every
/// other combination (differing tags, differing text, or a change of node
/// kind) builds `new` from scratch and replaces the mounted child.
pub open spec fn update_ops(new: NodeView, old: NodeView, parent: int, index: int, c: int) -> Seq<
    OpView,
>
    decreases old, new, 2int,
{
    match old {
        NodeView::Empty => match new {
            NodeView::Empty => Seq::empty(),
            _ => build_ops(new, c) + seq![OpView::Append { parent, child: c }],
        },
        NodeView::Element { tag: old_tag, children: old_ch } => match new {
            NodeView::Empty => seq![OpView::RemoveChild { parent, index }],
            NodeView::Element { tag: new_tag, children: new_ch } => if old_tag == new_tag {
                children_ops(new_ch, old_ch, c)
            } else {
                replace_ops(new, parent, index, c)
            },
            NodeView::Text { text } => replace_ops(new, parent, index, c),
        },
        NodeView::Text { text: old_text } => match new {
            NodeView::Empty => seq![OpView::RemoveChild { parent, index }],
            NodeView::Element { tag, children } => replace_ops(new, parent, index, c),
            NodeView::Text { text: new_text } => if old_text == new_text {
                Seq::empty()
            } else {
                replace_ops(new, parent, index, c)
            },
        },
    }
}

/// The mutations issued by diffing two same-tag elements' child lists: the
/// pairwise diff over the shared positions, then, if the new list is longer,
/// the extra children built and appended under the re-fetched container, or,
/// if the old list is longer, the stale tail removed from it in descending
/// index order.
pub open spec fn children_ops(nch: Seq<NodeView>, och: Seq<NodeView>, c: int) -> Seq<OpView>
    decreases och, nch, och.len() + nch.len() + 1,
{
    let zip = zip_ops(nch, och, 0, c);
    let c1 = c + zip_count(nch, och, 0);
    if nch.len() > och.len() {
        zip + build_from_ops(nch, och.len() as int, c1, c1 + 1)
    } else if och.len() > nch.len() {
        zip + remove_desc_ops(c1, nch.len() as int, och.len() as int)
    } else {
        zip
    }
}

/// The mutations issued by the pairwise diff of positions `i..min_len`: at
/// each position the live container is re-fetched (consuming one fresh
/// handle, issuing no mutation) and the two children at that position are
/// reconciled under it.
pub open spec fn zip_ops(nch: Seq<NodeView>, och: Seq<NodeView>, i: int, c: int) -> Seq<OpView>
    decreases och, nch, min_len(nch, och) - i,
{
    if 0 <= i < min_len(nch, och) {
        update_ops(nch[i], och[i], c, i, c + 1) + zip_ops(
            nch,
            och,
            i + 1,
            c + 1 + update_count(nch[i], och[i]),
        )
    } else {
        Seq::empty()
    }
}

/// Building a subtree consumes at least one handle, and a tail of subtrees a
/// nonnegative number.
pub proof fn lemma_build_count_pos(n: NodeView)
    ensures
        build_count(n) >= 1,
    decreases n, 0int,
{
    if let NodeView::Element { tag, children } = n {
        lemma_build_count_from_nonneg(children, 0);
    }
}

/// See [`lemma_build_count_pos`].
pub proof fn lemma_build_count_from_nonneg(cs: Seq<NodeView>, from: int)
    ensures
        build_count_from(cs, from) >= 0,
    decreases cs, cs.len() - from,
{
    if 0 <= from < cs.len() {
        lemma_build_count_pos(cs[from]);
        lemma_build_count_from_nonneg(cs, from + 1);
    }
}

/// Reconciliation consumes a nonnegative number of fresh handles.
pub proof fn lemma_update_count_nonneg(new: NodeView, old: NodeView)
    ensures
        update_count(new, old) >= 0,
    decreases old, new, 2int,
{
    match old {
        NodeView::Empty => match new {
            NodeView::Empty => {},
            _ => lemma_build_count_pos(new),
        },
        NodeView::Element { tag: old_tag, children: old_ch } => match new {
            NodeView::Empty => {},
            NodeView::Element { tag: new_tag, children: new_ch } => if old_tag == new_tag {
                lemma_children_count_nonneg(new_ch, old_ch);
            } else {
                lemma_build_count_pos(new);
            },
            NodeView::Text { text } => lemma_build_count_pos(new),
        },
        NodeView::Text { text: old_text } => match new {
            NodeView::Empty => {},
            NodeView::Element { tag, children } => lemma_build_count_pos(new),
            NodeView::Text { text: new_text } => if old_text != new_text {
                lemma_build_count_pos(new);
            },
        },
    }
}

/// See [`lemma_update_count_nonneg`].
pub proof fn lemma_children_count_nonneg(nch: Seq<NodeView>, och: Seq<NodeView>)
    ensures
        children_count(nch, och) >= 0,
    decreases och, nch, och.len() + nch.len() + 1,
{
    lemma_zip_count_nonneg(nch, och, 0);
    if nch.len() > och.len() {
        lemma_build_count_from_nonneg(nch, och.len() as int);
    }
}

/// See [`lemma_update_count_nonneg`].
pub proof fn lemma_zip_count_nonneg(nch: Seq<NodeView>, och: Seq<NodeView>, i: int)
    ensures
        zip_count(nch, och, i) >= 0,
    decreases och, nch, min_len(nch, och) - i,
{
    if 0 <= i < min_len(nch, och) {
        lemma_update_count_nonneg(nch[i], och[i]);
        lemma_zip_count_nonneg(nch, och, i + 1);
    }
}

/// Materializes the whole subtree described by `node` through the sink:
/// creates the node, then builds and appends each child in order.  It issues
/// exactly [`build_ops`], returns the fresh handle of the created root, and
/// never reads the previously rendered tree.
#[verifier::loop_isolation(false)]
pub fn create_element_from_node(sink: &mut Sink, node: &VirtualDomNode) -> (el: DomNode)
    requires
        old(sink).next + build_count(view_of(*node)) <= DomNode::MAX,
    ensures
        final(sink).log() == old(sink).log() + build_ops(view_of(*node), old(sink).next as int),
        el == old(sink).next,
        final(sink).next == old(sink).next + build_count(view_of(*node)),
    decreases *node,
{
    let ghost log0 = sink.log();
    let ghost c0 = sink.next as int;
    match node {
        VirtualDomNode::Element { node_type, children } => {
            proof {
                lemma_build_count_from_nonneg(views_of(children@, 0), 0);
                lemma_views_of_index(children@, 0);
            }
            let el = sink.create_element(node_type.as_str());
            let ghost cs = views_of(children@, 0);
            proof {
                assert(sink.log() + build_from_ops(cs, 0, el as int, sink.next as int) =~= log0
                    + build_ops(view_of(*node), c0));
            }
            let mut i: usize = 0;
            while i < children.len()
                invariant
                    i <= children.len(),
                    el == c0,
                    cs == views_of(children@, 0),
                    cs.len() == children@.len(),
                    forall|j: int|
                        0 <= j < children@.len() ==> cs[j] == view_of(#[trigger] children@[j]),
                    sink.log() + build_from_ops(cs, i as int, el as int, sink.next as int) == log0
                        + build_ops(view_of(*node), c0),
                    sink.next + build_count_from(cs, i as int) == c0 + build_count(
                        view_of(*node),
                    ),
                    sink.next + build_count_from(cs, i as int) <= DomNode::MAX,
                decreases children.len() - i,
            {
                let ghost l1 = sink.log();
                let ghost c1 = sink.next as int;
                proof {
                    lemma_build_count_pos(cs[i as int]);
                    lemma_build_count_from_nonneg(cs, i as int + 1);
                    assert(decreases_to!(*node => (*node)->children));
                    assert(decreases_to!(*children => children@[i as int]));
                }
                let child_element = create_element_from_node(sink, &children[i]);
                sink.append_element(el, child_element);
                proof {
                    assert(sink.log() =~= l1 + (build_ops(cs[i as int], c1) + seq![
                        OpView::Append { parent: el as int, child: c1 },
                    ]));
                    assert(sink.log() + build_from_ops(cs, i as int + 1, el as int, sink.next as int)
                        =~= l1 + build_from_ops(cs, i as int, el as int, c1));
                }
                i = i + 1;
            }
            proof {
                assert(sink.log() =~= sink.log() + build_from_ops(
                    cs,
                    i as int,
                    el as int,
                    sink.next as int,
                ));
            }
            el
        }
        VirtualDomNode::Text { text } => {
            let el = sink.create_text_element(text.as_str());
            proof {
                assert(sink.log() =~= log0 + build_ops(view_of(*node), c0));
            }
            el
        }
        VirtualDomNode::Empty => {
            let el = sink.create_text_element("");
            proof {
                reveal_strlit("");
                assert(""@ =~= Seq::<char>::empty());
                assert(sink.log() =~= log0 + build_ops(view_of(*node), c0));
            }
            el
        }
    }
}

/// Builds `new_node` from scratch and replaces the child at `child_index`
/// under `parent` with it.
fn replace_with(sink: &mut Sink, parent: DomNode, child_index: usize, new_node: &VirtualDomNode)
    requires
        old(sink).next + build_count(view_of(*new_node)) <= DomNode::MAX,
    ensures
        final(sink).log() == old(sink).log() + replace_ops(
            view_of(*new_node),
            parent as int,
            child_index as int,
            old(sink).next as int,
        ),
        final(sink).next == old(sink).next + build_count(view_of(*new_node)),
{
    let ghost log0 = sink.log();
    let ghost c0: int = sink.next as int;
    let child = create_element_from_node(sink, new_node);
    sink.replace_child(parent, child_index, child);
    proof {
        assert(sink.log() =~= log0 + replace_ops(
            view_of(*new_node),
            parent as int,
            child_index as int,
            c0,
        ));
    }
}

/// Diffs the child lists of two same-tag elements mounted at `child_index`
/// under `parent`: reconciles the shared positions pairwise, then appends the
/// extra new children or removes the stale old tail.  The live container is
/// re-fetched through the sink before every step that works under it, so no
/// handle is used across a mutation that may have replaced it.
#[verifier::loop_isolation(false)]
fn update_children(
    sink: &mut Sink,
    parent: DomNode,
    child_index: usize,
    new_children: &Vec<VirtualDomNode>,
    old_children: &Vec<VirtualDomNode>,
)
    requires
        old(sink).next + children_count(
            views_of(new_children@, 0),
            views_of(old_children@, 0),
        ) <= DomNode::MAX,
    ensures
        final(sink).log() == old(sink).log() + children_ops(
            views_of(new_children@, 0),
            views_of(old_children@, 0),
            old(sink).next as int,
        ),
        final(sink).next == old(sink).next + children_count(
            views_of(new_children@, 0),
            views_of(old_children@, 0),
        ),
    decreases *old_children, *new_children,
{
    let ghost log0 = sink.log();
    let ghost c0: int = sink.next as int;
    let ghost ncs = views_of(new_children@, 0);
    let ghost ocs = views_of(old_children@, 0);
    proof {
        lemma_views_of_index(new_children@, 0);
        lemma_views_of_index(old_children@, 0);
    }
    let new_length: usize = new_children.len();
    let old_length: usize = old_children.len();
    let min_length: usize = if new_length < old_length {
        new_length
    } else {
        old_length
    };
    let ghost extra: int = children_count(ncs, ocs) - zip_count(ncs, ocs, 0);
    proof {
        if ncs.len() > ocs.len() {
            lemma_build_count_from_nonneg(ncs, ocs.len() as int);
        }
        assert(extra >= 0);
    }
    let mut i: usize = 0;
    while i < min_length
        invariant
            i <= min_length,
            sink.log() + zip_ops(ncs, ocs, i as int, sink.next as int) == log0 + zip_ops(
                ncs,
                ocs,
                0,
                c0,
            ),
            sink.next + zip_count(ncs, ocs, i as int) == c0 + zip_count(ncs, ocs, 0),
        decreases min_length - i,
    {
        let ghost l1 = sink.log();
        let ghost c1: int = sink.next as int;
        proof {
            lemma_update_count_nonneg(ncs[i as int], ocs[i as int]);
            lemma_zip_count_nonneg(ncs, ocs, i as int + 1);
        }
        let child = sink.get_child(parent, child_index);
        proof {
            assert(decreases_to!(*old_children => old_children@[i as int]));
            assert(decreases_to!(*new_children => new_children@[i as int]));
        }
        update_element(sink, child, i, &new_children[i], &old_children[i]);
        proof {
            assert(sink.log() + zip_ops(ncs, ocs, i as int + 1, sink.next as int) =~= l1
                + zip_ops(ncs, ocs, i as int, c1));
        }
        i = i + 1;
    }
    let ghost c1: int = c0 + zip_count(ncs, ocs, 0);
    proof {
        assert(sink.log() =~= log0 + zip_ops(ncs, ocs, 0, c0));
    }
    if new_length > old_length {
        let child = sink.get_child(parent, child_index);
        let ghost l2 = sink.log();
        proof {
            assert(sink.log() + build_from_ops(ncs, min_length as int, child as int, sink.next as int)
                =~= l2 + build_from_ops(ncs, min_length as int, child as int, c1 + 1));
        }
        let mut j: usize = min_length;
        while j < new_length
            invariant
                min_length <= j <= new_length,
                child == c1,
                sink.log() + build_from_ops(ncs, j as int, child as int, sink.next as int) == l2
                    + build_from_ops(ncs, min_length as int, child as int, c1 + 1),
                sink.next + build_count_from(ncs, j as int) == c1 + 1 + build_count_from(
                    ncs,
                    min_length as int,
                ),
            decreases new_length - j,
        {
            let ghost l3 = sink.log();
            let ghost c3: int = sink.next as int;
            proof {
                lemma_build_count_pos(ncs[j as int]);
                lemma_build_count_from_nonneg(ncs, j as int + 1);
            }
            let new_child = create_element_from_node(sink, &new_children[j]);
            sink.append_element(child, new_child);
            proof {
                assert(sink.log() =~= l3 + (build_ops(ncs[j as int], c3) + seq![
                    OpView::Append { parent: child as int, child: c3 },
                ]));
                assert(sink.log() + build_from_ops(ncs, j as int + 1, child as int, sink.next as int)
                    =~= l3 + build_from_ops(ncs, j as int, child as int, c3));
            }
            j = j + 1;
        }
        proof {
            assert(sink.log() =~= log0 + children_ops(ncs, ocs, c0));
        }
    } else if old_length > new_length {
        let child = sink.get_child(parent, child_index);
        let ghost l2 = sink.log();
        let mut j: usize = old_length;
        while j > new_length
            invariant
                new_length <= j <= old_length,
                child == c1,
                sink.log() == l2 + remove_desc_ops(child as int, j as int, old_length as int),
                sink.next == c1 + 1,
            decreases j,
        {
            j = j - 1;
            sink.remove_child(child, j);
            proof {
                assert(sink.log() =~= l2 + remove_desc_ops(
                    child as int,
                    j as int,
                    old_length as int,
                ));
            }
        }
        proof {
            assert(sink.log() =~= log0 + children_ops(ncs, ocs, c0));
        }
    } else {
        proof {
            assert(sink.log() =~= log0 + children_ops(ncs, ocs, c0));
        }
    }
}

/// Reconciles what is mounted at position `child_index` under `parent` from
/// `old_node`'s shape to `new_node`'s shape, issuing exactly
/// [`update_ops`]`(new_node@, old_node@, parent, child_index, next)` to the
/// sink, top-down and left-to-right across siblings.
///
/// Two same-tag elements keep their mounted container and have their
/// children diffed by position; a shrinking child list has its stale tail
/// removed in descending index order, which is safe against the live,
/// shrinking child sequence.
#[verifier::loop_isolation(false)]
pub fn update_element(
    sink: &mut Sink,
    parent: DomNode,
    child_index: usize,
    new_node: &VirtualDomNode,
    old_node: &VirtualDomNode,
)
    requires
        old(sink).next + update_count(view_of(*new_node), view_of(*old_node)) <= DomNode::MAX,
    ensures
        final(sink).log() == old(sink).log() + update_ops(
            view_of(*new_node),
            view_of(*old_node),
            parent as int,
            child_index as int,
            old(sink).next as int,
        ),
        final(sink).next == old(sink).next + update_count(view_of(*new_node), view_of(*old_node)),
    decreases *old_node, *new_node,
{
    let ghost log0 = sink.log();
    let ghost c0: int = sink.next as int;
    let ghost nv = view_of(*new_node);
    let ghost ov = view_of(*old_node);
    match old_node {
        VirtualDomNode::Empty => {
            match new_node {
                VirtualDomNode::Empty => {
                    proof {
                        assert(sink.log() =~= log0 + update_ops(
                            nv,
                            ov,
                            parent as int,
                            child_index as int,
                            c0,
                        ));
                    }
                }
                _ => {
                    let child = create_element_from_node(sink, new_node);
                    sink.append_element(parent, child);
                    proof {
                        assert(sink.log() =~= log0 + update_ops(
                            nv,
                            ov,
                            parent as int,
                            child_index as int,
                            c0,
                        ));
                    }
                }
            }
        }
        VirtualDomNode::Element { node_type: old_type, children: old_children } => {
            match new_node {
                VirtualDomNode::Empty => {
                    sink.remove_child(parent, child_index);
                    proof {
                        assert(sink.log() =~= log0 + update_ops(
                            nv,
                            ov,
                            parent as int,
                            child_index as int,
                            c0,
                        ));
                    }
                }
                VirtualDomNode::Element { node_type: new_type, children: new_children } => {
                    if !(*old_type == *new_type) {
                        replace_with(sink, parent, child_index, new_node);
                    } else {
                        proof {
                            assert(decreases_to!(*old_node => (*old_node)->children));
                        }
                        update_children(sink, parent, child_index, new_children, old_children);
                    }
                    proof {
                        assert(sink.log() =~= log0 + update_ops(
                            nv,
                            ov,
                            parent as int,
                            child_index as int,
                            c0,
                        ));
                    }
                }
                VirtualDomNode::Text { text } => {
                    replace_with(sink, parent, child_index, new_node);
                    proof {
                        assert(sink.log() =~= log0 + update_ops(
                            nv,
                            ov,
                            parent as int,
                            child_index as int,
                            c0,
                        ));
                    }
                }
            }
        }
        VirtualDomNode::Text { text: old_text } => {
            match new_node {
                VirtualDomNode::Empty => {
                    sink.remove_child(parent, child_index);
                    proof {
                        assert(sink.log() =~= log0 + update_ops(
                            nv,
                            ov,
                            parent as int,
                            child_index as int,
                            c0,
                        ));
                    }
                }
                VirtualDomNode::Element { node_type, children } => {
                    replace_with(sink, parent, child_index, new_node);
                    proof {
                        assert(sink.log() =~= log0 + update_ops(
                            nv,
                            ov,
                            parent as int,
                            child_index as int,
                            c0,
                        ));
                    }
                }
                VirtualDomNode::Text { text: new_text } => {
                    if !(*old_text == *new_text) {
                        replace_with(sink, parent, child_index, new_node);
                    }
                    proof {
                        assert(sink.log() =~= log0 + update_ops(
                            nv,
                            ov,
                            parent as int,
                            child_index as int,
                            c0,
                        ));
                    }
                }
            }
        }
    }
}

} // verus!
