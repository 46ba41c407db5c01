//! The mutation sink: the interface through which the reconciler asks for node
//! creation, insertion, removal and replacement.
//!
//! This sink is an in-memory host.  It owns nothing but a log of the mutations
//! requested so far and a counter from which it hands out fresh opaque handles;
//! every contract of the reconciler is stated over that log.  An embedder that
//! drives a real node graph replays the log in order.

use vstd::prelude::*;

verus! {

/// An opaque handle to a live node.  The reconciler never interprets one, it
/// only threads handles through sink calls.
pub type DomNode = u64;

/// One requested mutation, as recorded in the sink's log.
pub enum Op {
    /// A fresh element node with the given tag was created under `handle`.
    CreateElement { tag: String, handle: DomNode },
    /// A fresh text node with the given content was created under `handle`.
    CreateText { text: String, handle: DomNode },
    /// `child` was appended at the end of `parent`'s children.
    Append { parent: DomNode, child: DomNode },
    /// The child at position `index` under `parent` was removed.
    RemoveChild { parent: DomNode, index: usize },
    /// The child at position `index` under `parent` was replaced by `child`.
    ReplaceChild { parent: DomNode, index: usize, child: DomNode },
}

/// The mathematical shape of a logged mutation.
#[verifier::ext_equal]
pub enum OpView {
    CreateElement { tag: Seq<char>, handle: int },
    CreateText { text: Seq<char>, handle: int },
    Append { parent: int, child: int },
    RemoveChild { parent: int, index: int },
    ReplaceChild { parent: int, index: int, child: int },
}

impl View for Op {
    type V = OpView;

    open spec fn view(&self) -> OpView {
        match self {
            Op::CreateElement { tag, handle } => OpView::CreateElement {
                tag: tag@,
                handle: *handle as int,
            },
            Op::CreateText { text, handle } => OpView::CreateText {
                text: text@,
                handle: *handle as int,
            },
            Op::Append { parent, child } => OpView::Append {
                parent: *parent as int,
                child: *child as int,
            },
            Op::RemoveChild { parent, index } => OpView::RemoveChild {
                parent: *parent as int,
                index: *index as int,
            },
            Op::ReplaceChild { parent, index, child } => OpView::ReplaceChild {
                parent: *parent as int,
                index: *index as int,
                child: *child as int,
            },
        }
    }
}

/// The in-memory host.  `ops` is the log of mutations requested so far;
/// `next` is the first handle value not yet handed out.
pub struct Sink {
    pub ops: Vec<Op>,
    pub next: DomNode,
}

impl Sink {
    /// The log of mutations requested so far, in order.
    pub open spec fn log(self) -> Seq<OpView> {
        self.ops@.map_values(|op: Op| op@)
    }

    /// A fresh host with an empty log.
    pub fn new() -> (s: Sink)
        ensures
            s.log() == Seq::<OpView>::empty(),
            s.next == 0,
    {
        let s = Sink { ops: Vec::new(), next: 0 };
        proof {
            assert(s.log() =~= Seq::<OpView>::empty());
        }
        s
    }

    /// Models looking a live node up in the host: hands out a fresh handle
    /// for it and requests no mutation.
    pub fn query_selector(&mut self, selector: &str) -> (h: DomNode)
        requires
            old(self).next < DomNode::MAX,
        ensures
            final(self).log() == old(self).log(),
            h == old(self).next,
            final(self).next == old(self).next + 1,
    {
        let h = self.next;
        self.next = self.next + 1;
        h
    }

    /// Requests a fresh element node with the given tag.
    pub fn create_element(&mut self, tag: &str) -> (h: DomNode)
        requires
            old(self).next < DomNode::MAX,
        ensures
            final(self).log() == old(self).log().push(
                OpView::CreateElement { tag: tag@, handle: old(self).next as int },
            ),
            h == old(self).next,
            final(self).next == old(self).next + 1,
    {
        let h = self.next;
        self.next = self.next + 1;
        self.ops.push(Op::CreateElement { tag: tag.to_owned(), handle: h });
        proof {
            assert(self.log() =~= old(self).log().push(
                OpView::CreateElement { tag: tag@, handle: old(self).next as int },
            ));
        }
        h
    }

    /// Requests a fresh text node with the given content.
    pub fn create_text_element(&mut self, text: &str) -> (h: DomNode)
        requires
            old(self).next < DomNode::MAX,
        ensures
            final(self).log() == old(self).log().push(
                OpView::CreateText { text: text@, handle: old(self).next as int },
            ),
            h == old(self).next,
            final(self).next == old(self).next + 1,
    {
        let h = self.next;
        self.next = self.next + 1;
        self.ops.push(Op::CreateText { text: text.to_owned(), handle: h });
        proof {
            assert(self.log() =~= old(self).log().push(
                OpView::CreateText { text: text@, handle: old(self).next as int },
            ));
        }
        h
    }

    /// Requests appending `child` at the end of `parent`'s children.
    pub fn append_element(&mut self, parent: DomNode, child: DomNode)
        ensures
            final(self).log() == old(self).log().push(
                OpView::Append { parent: parent as int, child: child as int },
            ),
            final(self).next == old(self).next,
    {
        self.ops.push(Op::Append { parent, child });
        proof {
            assert(self.log() =~= old(self).log().push(
                OpView::Append { parent: parent as int, child: child as int },
            ));
        }
    }

    /// Requests removing the child at position `child_index` under `parent`.
    pub fn remove_child(&mut self, parent: DomNode, child_index: usize)
        ensures
            final(self).log() == old(self).log().push(
                OpView::RemoveChild { parent: parent as int, index: child_index as int },
            ),
            final(self).next == old(self).next,
    {
        self.ops.push(Op::RemoveChild { parent, index: child_index });
        proof {
            assert(self.log() =~= old(self).log().push(
                OpView::RemoveChild { parent: parent as int, index: child_index as int },
            ));
        }
    }

    /// Requests replacing the child at position `child_index` under `parent`
    /// by `child`.
    pub fn replace_child(&mut self, parent: DomNode, child_index: usize, child: DomNode)
        ensures
            final(self).log() == old(self).log().push(
                OpView::ReplaceChild {
                    parent: parent as int,
                    index: child_index as int,
                    child: child as int,
                },
            ),
            final(self).next == old(self).next,
    {
        self.ops.push(Op::ReplaceChild { parent, index: child_index, child });
        proof {
            assert(self.log() =~= old(self).log().push(
                OpView::ReplaceChild {
                    parent: parent as int,
                    index: child_index as int,
                    child: child as int,
                },
            ));
        }
    }

    /// Models fetching the live child at position `child_index` under
    /// `parent`: hands out a fresh handle for it and requests no mutation.
    /// The reconciler re-fetches rather than caching, so that it never works
    /// against a handle made stale by an earlier mutation.
    pub fn get_child(&mut self, parent: DomNode, child_index: usize) -> (h: DomNode)
        requires
            old(self).next < DomNode::MAX,
        ensures
            final(self).log() == old(self).log(),
            h == old(self).next,
            final(self).next == old(self).next + 1,
    {
        let h = self.next;
        self.next = self.next + 1;
        h
    }
}

} // verus!
