//! Laws of the reconciler: properties that hold of every reconciliation
//! pass, proved from the spec functions that the executable code is held to.

use vstd::prelude::*;

use crate::node::NodeView;
use crate::reconcile::build_from_ops;
use crate::reconcile::build_count;
use crate::reconcile::build_ops;
use crate::reconcile::children_ops;
use crate::reconcile::lemma_update_count_nonneg;
use crate::reconcile::lemma_zip_count_nonneg;
use crate::reconcile::min_len;
use crate::reconcile::remove_desc_ops;
use crate::reconcile::replace_ops;
use crate::reconcile::update_count;
use crate::reconcile::update_ops;
use crate::reconcile::zip_count;
use crate::reconcile::zip_ops;
use crate::sink::OpView;

verus! {

/// Rendering a tree over an identical tree issues no mutation at all: every
/// pairwise position compares equal, so the whole pass is a no-op.
pub proof fn lemma_idempotent(t: NodeView, parent: int, index: int, c: int)
    ensures
        update_ops(t, t, parent, index, c) == Seq::<OpView>::empty(),
    decreases t, t, 2int,
{
    match t {
        NodeView::Empty => {},
        NodeView::Text { text } => {},
        NodeView::Element { tag, children } => {
            lemma_zip_idempotent(children, 0, c);
            assert(update_ops(t, t, parent, index, c) =~= Seq::<OpView>::empty());
        }
    }
}

/// The pairwise diff of a child list against itself issues nothing.
proof fn lemma_zip_idempotent(cs: Seq<NodeView>, i: int, c: int)
    ensures
        zip_ops(cs, cs, i, c) == Seq::<OpView>::empty(),
    decreases cs, cs, min_len(cs, cs) - i,
{
    if 0 <= i < min_len(cs, cs) {
        lemma_idempotent(cs[i], c, i, c + 1);
        lemma_zip_idempotent(cs, i + 1, c + 1 + update_count(cs[i], cs[i]));
        assert(zip_ops(cs, cs, i, c) =~= Seq::<OpView>::empty());
    }
}

/// Rendering `Empty` over any non-empty tree issues exactly one removal of
/// the mounted child, and nothing else — in particular, no creation.
pub proof fn lemma_teardown(t: NodeView, parent: int, index: int, c: int)
    requires
        !(t is Empty),
    ensures
        update_ops(NodeView::Empty, t, parent, index, c) == seq![
            OpView::RemoveChild { parent, index },
        ],
{
}

/// Two elements whose tags differ are never diffed child by child: the new
/// tree is built from scratch and replaces the mounted child in one step.
pub proof fn lemma_tag_change_replaces(
    new: NodeView,
    old: NodeView,
    parent: int,
    index: int,
    c: int,
)
    requires
        old is Element,
        new is Element,
        old->tag != new->tag,
    ensures
        update_ops(new, old, parent, index, c) == replace_ops(new, parent, index, c),
{
}

/// A change of node kind — an element over a text leaf or a text leaf over
/// an element — always replaces the mounted child with a freshly built
/// subtree, whatever the contents are.
pub proof fn lemma_kind_change_replaces(
    new: NodeView,
    old: NodeView,
    parent: int,
    index: int,
    c: int,
)
    requires
        (old is Element && new is Text) || (old is Text && new is Element),
    ensures
        update_ops(new, old, parent, index, c) == replace_ops(new, parent, index, c),
{
}

/// Tearing a child range down is index-safe: the `k`-th removal issued
/// targets index `upto - 1 - k`, strictly below `upto - k`, the number of
/// children still alive in that range after the `k` earlier removals.  So
/// each removal lands on the child it means, and together they remove
/// exactly the tail `from..upto`.
pub proof fn lemma_remove_desc_indices(parent: int, from: int, upto: int)
    requires
        from <= upto,
    ensures
        remove_desc_ops(parent, from, upto).len() == upto - from,
        forall|k: int|
            0 <= k < upto - from ==> remove_desc_ops(parent, from, upto)[k] == (
            OpView::RemoveChild { parent, index: upto - 1 - k }),
    decreases upto - from,
{
    if from < upto {
        lemma_remove_desc_indices(parent, from + 1, upto);
    }
}

/// The handle a mutation works under, if it is a removal or a replacement.
pub open spec fn mutation_target(op: OpView) -> Option<int> {
    match op {
        OpView::RemoveChild { parent, index } => Some(parent),
        OpView::ReplaceChild { parent, index, child } => Some(parent),
        _ => None,
    }
}

/// Building a subtree from scratch never removes or replaces anything.
pub proof fn lemma_build_ops_no_mutation(n: NodeView, c: int)
    ensures
        forall|k: int|
            0 <= k < build_ops(n, c).len() ==> mutation_target(#[trigger] build_ops(n, c)[k])
                is None,
    decreases n, 0int,
{
    if let NodeView::Element { tag, children } = n {
        lemma_build_from_ops_no_mutation(children, 0, c, c + 1);
    }
}

/// See [`lemma_build_ops_no_mutation`].
pub proof fn lemma_build_from_ops_no_mutation(cs: Seq<NodeView>, from: int, parent: int, c: int)
    ensures
        forall|k: int|
            0 <= k < build_from_ops(cs, from, parent, c).len() ==> mutation_target(
                #[trigger] build_from_ops(cs, from, parent, c)[k],
            ) is None,
    decreases cs, cs.len() - from,
{
    if 0 <= from < cs.len() {
        lemma_build_ops_no_mutation(cs[from], c);
        lemma_build_from_ops_no_mutation(cs, from + 1, parent, c + build_count(
            cs[from],
        ));
    }
}

/// Every removal or replacement a reconciliation pass issues works either
/// under the given mount (`parent`) or under a handle the pass fetched
/// freshly (at least `c`).
pub proof fn lemma_update_ops_targets(new: NodeView, old: NodeView, parent: int, index: int, c: int)
    ensures
        forall|k: int|
            0 <= k < update_ops(new, old, parent, index, c).len() ==> match mutation_target(
                #[trigger] update_ops(new, old, parent, index, c)[k],
            ) {
                Some(p) => p == parent || p >= c,
                None => true,
            },
    decreases old, new, 2int,
{
    let ops = update_ops(new, old, parent, index, c);
    match old {
        NodeView::Empty => {
            if !(new is Empty) {
                lemma_build_ops_no_mutation(new, c);
            }
        }
        NodeView::Element { tag: old_tag, children: old_ch } => {
            match new {
                NodeView::Empty => {},
                NodeView::Element { tag: new_tag, children: new_ch } => {
                    if old_tag == new_tag {
                        lemma_children_ops_targets(new_ch, old_ch, c);
                    } else {
                        lemma_build_ops_no_mutation(new, c);
                    }
                }
                NodeView::Text { text } => {
                    lemma_build_ops_no_mutation(new, c);
                }
            }
        }
        NodeView::Text { text: old_text } => {
            match new {
                NodeView::Empty => {},
                NodeView::Element { tag, children } => {
                    lemma_build_ops_no_mutation(new, c);
                }
                NodeView::Text { text: new_text } => {
                    if old_text != new_text {
                        lemma_build_ops_no_mutation(new, c);
                    }
                }
            }
        }
    }
}

/// See [`lemma_update_ops_targets`]: a child-list diff only removes or
/// replaces under freshly fetched handles.
pub proof fn lemma_children_ops_targets(nch: Seq<NodeView>, och: Seq<NodeView>, c: int)
    ensures
        forall|k: int|
            0 <= k < children_ops(nch, och, c).len() ==> match mutation_target(
                #[trigger] children_ops(nch, och, c)[k],
            ) {
                Some(p) => p >= c,
                None => true,
            },
    decreases och, nch, och.len() + nch.len() + 1,
{
    lemma_zip_ops_targets(nch, och, 0, c);
    lemma_zip_count_nonneg(nch, och, 0);
    let c1 = c + zip_count(nch, och, 0);
    if nch.len() > och.len() {
        lemma_build_from_ops_no_mutation(nch, och.len() as int, c1, c1 + 1);
    } else if och.len() > nch.len() {
        lemma_remove_desc_indices(c1, nch.len() as int, och.len() as int);
    }
}

/// See [`lemma_update_ops_targets`].
pub proof fn lemma_zip_ops_targets(nch: Seq<NodeView>, och: Seq<NodeView>, i: int, c: int)
    ensures
        forall|k: int|
            0 <= k < zip_ops(nch, och, i, c).len() ==> match mutation_target(
                #[trigger] zip_ops(nch, och, i, c)[k],
            ) {
                Some(p) => p >= c,
                None => true,
            },
    decreases och, nch, min_len(nch, och) - i,
{
    if 0 <= i < min_len(nch, och) {
        lemma_update_ops_targets(nch[i], och[i], c, i, c + 1);
        lemma_update_count_nonneg(nch[i], och[i]);
        lemma_zip_ops_targets(nch, och, i + 1, c + 1 + update_count(
            nch[i],
            och[i],
        ));
    }
}

/// Reconciling two elements with the same tag never removes or replaces the
/// mounted container itself: every removal or replacement the pass issues
/// works under a handle fetched during the pass, all of which are at least
/// `c`, while the container's own handle `parent` was handed out earlier.
pub proof fn lemma_same_tag_preserves_container(
    new: NodeView,
    old: NodeView,
    parent: int,
    index: int,
    c: int,
)
    requires
        old is Element,
        new is Element,
        old->tag == new->tag,
        parent < c,
    ensures
        forall|k: int|
            0 <= k < update_ops(new, old, parent, index, c).len() ==> match mutation_target(
                #[trigger] update_ops(new, old, parent, index, c)[k],
            ) {
                Some(p) => p != parent,
                None => true,
            },
{
    lemma_children_ops_targets(new->children, old->children, c);
}

} // verus!
