use vdom::node::VirtualDomNode;
use vdom::node::h;
use vdom::node::t;
use vdom::reconcile::create_element_from_node;
use vdom::reconcile::update_element;
use vdom::sink::Op;
use vdom::sink::Sink;

#[test]
fn builders_produce_the_described_variants() {
    let leaf = t("hello");
    match &leaf {
        VirtualDomNode::Text { text } => assert_eq!(text.as_str(), "hello"),
        _ => panic!("t must build a text node"),
    }
    let el = h("ul", vec![t("a"), t("b")]);
    match &el {
        VirtualDomNode::Element { node_type, children } => {
            assert_eq!(node_type.as_str(), "ul");
            assert_eq!(children.len(), 2);
            match &children[1] {
                VirtualDomNode::Text { text } => assert_eq!(text.as_str(), "b"),
                _ => panic!("child must be the text node it was built from"),
            }
        }
        _ => panic!("h must build an element node"),
    }
}

#[test]
fn sink_hands_out_consecutive_fresh_handles() {
    let mut sink = Sink::new();
    assert_eq!(sink.query_selector("body"), 0);
    assert_eq!(sink.create_element("div"), 1);
    assert_eq!(sink.create_text_element("x"), 2);
    assert_eq!(sink.get_child(1, 0), 3);
    // lookups log nothing; creations log one op each
    assert_eq!(sink.ops.len(), 2);
}

#[test]
fn build_walks_the_tree_top_down() {
    let mut sink = Sink::new();
    let node = h("p", vec![t("hi"), h("em", vec![])]);
    let el = create_element_from_node(&mut sink, &node);
    assert_eq!(el, 0);
    assert_eq!(sink.ops.len(), 5);
    match &sink.ops[0] {
        Op::CreateElement { tag, handle } => {
            assert_eq!(tag.as_str(), "p");
            assert_eq!(*handle, 0);
        }
        _ => panic!("the root is created first"),
    }
    match &sink.ops[1] {
        Op::CreateText { text, handle } => {
            assert_eq!(text.as_str(), "hi");
            assert_eq!(*handle, 1);
        }
        _ => panic!("the first child is created next"),
    }
    assert!(matches!(sink.ops[2], Op::Append { parent: 0, child: 1 }));
    match &sink.ops[3] {
        Op::CreateElement { tag, handle } => {
            assert_eq!(tag.as_str(), "em");
            assert_eq!(*handle, 2);
        }
        _ => panic!("the second child is created after the first is appended"),
    }
    assert!(matches!(sink.ops[4], Op::Append { parent: 0, child: 2 }));
}

#[test]
fn build_materializes_empty_as_empty_text() {
    let mut sink = Sink::new();
    let el = create_element_from_node(&mut sink, &VirtualDomNode::Empty);
    assert_eq!(el, 0);
    assert_eq!(sink.ops.len(), 1);
    match &sink.ops[0] {
        Op::CreateText { text, handle } => {
            assert_eq!(text.as_str(), "");
            assert_eq!(*handle, 0);
        }
        _ => panic!("an empty node materializes as an empty text node"),
    }
}

#[test]
fn update_over_empty_appends_a_fresh_subtree() {
    let mut sink = Sink::new();
    let parent = sink.query_selector("main");
    let new_node = t("fresh");
    update_element(&mut sink, parent, 0, &new_node, &VirtualDomNode::Empty);
    assert_eq!(sink.ops.len(), 2);
    match &sink.ops[0] {
        Op::CreateText { text, handle } => {
            assert_eq!(text.as_str(), "fresh");
            assert_eq!(*handle, 1);
        }
        _ => panic!("the subtree is built first"),
    }
    assert!(matches!(sink.ops[1], Op::Append { parent: 0, child: 1 }));
}

#[test]
fn update_at_inner_index_removes_at_that_index() {
    let mut sink = Sink::new();
    let parent = sink.query_selector("main");
    let old_node = t("stale");
    update_element(&mut sink, parent, 4, &VirtualDomNode::Empty, &old_node);
    assert_eq!(sink.ops.len(), 1);
    assert!(matches!(sink.ops[0], Op::RemoveChild { parent: 0, index: 4 }));
}
