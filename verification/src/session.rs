//! The render session: holds the one currently rendered tree per mount point
//! and replaces it after each successful reconciliation pass.

use vstd::prelude::*;

use crate::node::NodeView;
use crate::node::VirtualDomNode;
use crate::node::h;
use crate::node::t;
use crate::node::view_of;
use crate::reconcile::build_count;
use crate::reconcile::build_count_from;
use crate::reconcile::children_count;
use crate::reconcile::update_count;
use crate::reconcile::update_element;
use crate::reconcile::update_ops;
use crate::reconcile::zip_count;
use crate::sink::DomNode;
use crate::sink::Sink;

verus! {

/// A render session: the tree rendered by the previous pass.  Initially the
/// current tree is `Empty`, so the first render builds everything.
pub struct VirtualDom {
    pub node: VirtualDomNode,
}

impl VirtualDom {
    /// A fresh session whose current tree is `Empty`.
    pub fn new() -> (vd: VirtualDom)
        ensures
            vd.node == (VirtualDomNode::Empty),
    {
        VirtualDom { node: VirtualDomNode::Empty }
    }

    /// Diffs `new_node` against the tree rendered by the previous call,
    /// issuing exactly the mutations of [`update_ops`] against the mounted
    /// root `el`, and stores `new_node` as current for the next call.
    pub fn render(&mut self, sink: &mut Sink, el: DomNode, new_node: VirtualDomNode)
        requires
            old(sink).next + update_count(view_of(new_node), view_of(old(self).node))
                <= DomNode::MAX,
        ensures
            final(self).node == new_node,
            final(sink).log() == old(sink).log() + update_ops(
                view_of(new_node),
                view_of(old(self).node),
                el as int,
                0,
                old(sink).next as int,
            ),
            final(sink).next == old(sink).next + update_count(
                view_of(new_node),
                view_of(old(self).node),
            ),
    {
        update_element(sink, el, 0, &new_node, &self.node);
        self.node = new_node;
    }
}

/// The shape of the small demonstration tree: a `div` holding `h1`, `h2` and
/// `h3` elements whose text leaves carry `a`, `b` and `c`.
pub open spec fn demo_listing(a: Seq<char>, b: Seq<char>, c: Seq<char>) -> NodeView {
    NodeView::Element {
        tag: "div"@,
        children: seq![
            NodeView::Element { tag: "h1"@, children: seq![NodeView::Text { text: a }] },
            NodeView::Element { tag: "h2"@, children: seq![NodeView::Text { text: b }] },
            NodeView::Element { tag: "h3"@, children: seq![NodeView::Text { text: c }] },
        ],
    }
}

/// A demonstration tree consumes exactly seven fresh handles when it is built
/// from scratch, whatever its three text leaves are.
proof fn lemma_demo_listing_build_count(a: Seq<char>, b: Seq<char>, c: Seq<char>)
    ensures
        update_count(demo_listing(a, b, c), NodeView::Empty) == 7,
{
    let d = demo_listing(a, b, c);
    let cs = d->children;
    assert(build_count(cs[0]) == 2) by {
        reveal_with_fuel(crate::reconcile::build_count, 3);
        reveal_with_fuel(crate::reconcile::build_count_from, 3);
    }
    assert(build_count(cs[1]) == 2) by {
        reveal_with_fuel(crate::reconcile::build_count, 3);
        reveal_with_fuel(crate::reconcile::build_count_from, 3);
    }
    assert(build_count(cs[2]) == 2) by {
        reveal_with_fuel(crate::reconcile::build_count, 3);
        reveal_with_fuel(crate::reconcile::build_count_from, 3);
    }
    assert(build_count_from(cs, 3) == 0);
    assert(build_count_from(cs, 2) == 2);
    assert(build_count_from(cs, 1) == 4);
    assert(build_count_from(cs, 0) == 6);
    assert(build_count(d) == 7);
}

/// Reconciling one demonstration tree into another consumes at most nine
/// fresh handles, whatever the text leaves are.
proof fn lemma_demo_listing_update_count(
    a: Seq<char>,
    b: Seq<char>,
    c: Seq<char>,
    x: Seq<char>,
    y: Seq<char>,
    z: Seq<char>,
)
    ensures
        update_count(demo_listing(x, y, z), demo_listing(a, b, c)) <= 9,
{
    let od = demo_listing(a, b, c);
    let nd = demo_listing(x, y, z);
    let ocs = od->children;
    let ncs = nd->children;
    assert forall|i: int| 0 <= i < 3 implies update_count(ncs[i], ocs[i]) <= 2 by {
        let osub = ocs[i]->children;
        let nsub = ncs[i]->children;
        assert(update_count(nsub[0], osub[0]) <= 1);
        assert(zip_count(nsub, osub, 1) == 0);
        assert(zip_count(nsub, osub, 0) <= 2);
        assert(children_count(nsub, osub) <= 2);
    }
    assert(zip_count(ncs, ocs, 3) == 0);
    assert(zip_count(ncs, ocs, 2) <= 3);
    assert(zip_count(ncs, ocs, 1) <= 6);
    assert(zip_count(ncs, ocs, 0) <= 9);
    assert(children_count(ncs, ocs) <= 9);
}

/// A small demonstration: renders a three-row listing into a fresh in-memory
/// host, then renders it again with the first and third rows' text swapped,
/// and returns the host with the mutations both passes issued.
pub fn start() -> (sink: Sink)
    ensures
        sink.log() == update_ops(demo_listing("1"@, "2"@, "3"@), NodeView::Empty, 0, 0, 1)
            + update_ops(
            demo_listing("3"@, "2"@, "1"@),
            demo_listing("1"@, "2"@, "3"@),
            0,
            0,
            8,
        ),
{
    let mut sink = Sink::new();
    let body = sink.query_selector("body");
    let mut vd = VirtualDom::new();

    let first = build_demo_listing("1", "2", "3");
    proof {
        lemma_demo_listing_build_count("1"@, "2"@, "3"@);
    }
    vd.render(&mut sink, body, first);

    let second = build_demo_listing("3", "2", "1");
    proof {
        lemma_demo_listing_update_count("1"@, "2"@, "3"@, "3"@, "2"@, "1"@);
    }
    vd.render(&mut sink, body, second);

    sink
}

/// Builds the demonstration tree of [`demo_listing`] as a value.
fn build_demo_listing(a: &str, b: &str, c: &str) -> (n: VirtualDomNode)
    ensures
        n@ == demo_listing(a@, b@, c@),
{
    let k1 = h("h1", vec![t(a)]);
    let k2 = h("h2", vec![t(b)]);
    let k3 = h("h3", vec![t(c)]);
    let n = h("div", vec![k1, k2, k3]);
    proof {
        let d = demo_listing(a@, b@, c@);
        assert(k1@->children =~= d->children[0]->children);
        assert(k1@ =~= d->children[0]);
        assert(k2@->children =~= d->children[1]->children);
        assert(k2@ =~= d->children[1]);
        assert(k3@->children =~= d->children[2]->children);
        assert(k3@ =~= d->children[2]);
        assert(n@->children =~= d->children);
        assert(n@ =~= d);
    }
    n
}

} // verus!
