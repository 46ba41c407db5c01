use vdom::node::VirtualDomNode;
use vdom::node::h;
use vdom::node::t;
use vdom::session::VirtualDom;
use vdom::session::start;
use vdom::sink::Op;
use vdom::sink::Sink;

fn expect_create_element(op: &Op, tag: &str, handle: u64) {
    match op {
        Op::CreateElement { tag: got_tag, handle: got } => {
            assert_eq!(got_tag.as_str(), tag);
            assert_eq!(*got, handle);
        }
        _ => panic!("expected CreateElement, got another op"),
    }
}

fn expect_create_text(op: &Op, text: &str, handle: u64) {
    match op {
        Op::CreateText { text: got_text, handle: got } => {
            assert_eq!(got_text.as_str(), text);
            assert_eq!(*got, handle);
        }
        _ => panic!("expected CreateText, got another op"),
    }
}

fn expect_append(op: &Op, parent: u64, child: u64) {
    match op {
        Op::Append { parent: got_parent, child: got_child } => {
            assert_eq!(*got_parent, parent);
            assert_eq!(*got_child, child);
        }
        _ => panic!("expected Append, got another op"),
    }
}

fn expect_remove(op: &Op, parent: u64, index: usize) {
    match op {
        Op::RemoveChild { parent: got_parent, index: got_index } => {
            assert_eq!(*got_parent, parent);
            assert_eq!(*got_index, index);
        }
        _ => panic!("expected RemoveChild, got another op"),
    }
}

fn expect_replace(op: &Op, parent: u64, index: usize, child: u64) {
    match op {
        Op::ReplaceChild { parent: got_parent, index: got_index, child: got_child } => {
            assert_eq!(*got_parent, parent);
            assert_eq!(*got_index, index);
            assert_eq!(*got_child, child);
        }
        _ => panic!("expected ReplaceChild, got another op"),
    }
}

fn is_creation(op: &Op) -> bool {
    matches!(op, Op::CreateElement { .. } | Op::CreateText { .. })
}

#[test]
fn empty_to_tree_creates_each_node_once_before_any_append() {
    let mut sink = Sink::new();
    let root = sink.query_selector("body");
    assert_eq!(root, 0);
    let mut vd = VirtualDom::new();
    vd.render(&mut sink, root, h("div", vec![h("h1", vec![t("1")])]));
    assert_eq!(sink.ops.len(), 6);
    expect_create_element(&sink.ops[0], "div", 1);
    expect_create_element(&sink.ops[1], "h1", 2);
    expect_create_text(&sink.ops[2], "1", 3);
    expect_append(&sink.ops[3], 2, 3);
    expect_append(&sink.ops[4], 1, 2);
    expect_append(&sink.ops[5], 0, 1);
    // every creation precedes every append
    assert!(sink.ops[..3].iter().all(is_creation));
    assert!(!sink.ops[3..].iter().any(is_creation));
}

#[test]
fn rendering_identical_tree_issues_no_mutations() {
    let mut sink = Sink::new();
    let root = sink.query_selector("body");
    let mut vd = VirtualDom::new();
    vd.render(&mut sink, root, h("div", vec![h("h1", vec![t("1")]), t("tail")]));
    let after_first = sink.ops.len();
    vd.render(&mut sink, root, h("div", vec![h("h1", vec![t("1")]), t("tail")]));
    assert_eq!(sink.ops.len(), after_first);
}

#[test]
fn rendering_empty_over_empty_issues_nothing() {
    let mut sink = Sink::new();
    let root = sink.query_selector("body");
    let mut vd = VirtualDom::new();
    vd.render(&mut sink, root, VirtualDomNode::Empty);
    assert_eq!(sink.ops.len(), 0);
}

#[test]
fn rendering_empty_after_tree_issues_single_removal() {
    let mut sink = Sink::new();
    let root = sink.query_selector("body");
    let mut vd = VirtualDom::new();
    vd.render(&mut sink, root, h("div", vec![t("x"), t("y")]));
    let after_first = sink.ops.len();
    vd.render(&mut sink, root, VirtualDomNode::Empty);
    let teardown = &sink.ops[after_first..];
    assert_eq!(teardown.len(), 1);
    expect_remove(&teardown[0], 0, 0);
    assert!(!teardown.iter().any(is_creation));
}

#[test]
fn same_tag_reorder_replaces_only_changed_leaves() {
    let mut sink = Sink::new();
    let root = sink.query_selector("body");
    let mut vd = VirtualDom::new();
    vd.render(
        &mut sink,
        root,
        h(
            "div",
            vec![h("h1", vec![t("1")]), h("h2", vec![t("2")]), h("h3", vec![t("3")])],
        ),
    );
    let after_first = sink.ops.len();
    assert_eq!(after_first, 14);
    vd.render(
        &mut sink,
        root,
        h(
            "div",
            vec![h("h1", vec![t("3")]), h("h2", vec![t("2")]), h("h3", vec![t("1")])],
        ),
    );
    let delta = &sink.ops[after_first..];
    // only the two changed text leaves are replaced; the middle leaf is untouched
    assert_eq!(delta.len(), 4);
    expect_create_text(&delta[0], "3", 10);
    expect_replace(&delta[1], 9, 0, 10);
    expect_create_text(&delta[2], "1", 15);
    expect_replace(&delta[3], 14, 0, 15);
    // the outer container (handle 1) and the root (0) are never removed or replaced
    for op in delta {
        match op {
            Op::RemoveChild { parent, .. } | Op::ReplaceChild { parent, .. } => {
                assert_ne!(*parent, 0);
                assert_ne!(*parent, 1);
            }
            _ => {}
        }
    }
}

#[test]
fn children_shrink_removes_exactly_the_tail_in_descending_order() {
    let mut sink = Sink::new();
    let root = sink.query_selector("body");
    let mut vd = VirtualDom::new();
    vd.render(&mut sink, root, h("div", vec![t("a"), t("b"), t("c"), t("d")]));
    let after_first = sink.ops.len();
    assert_eq!(after_first, 10);
    vd.render(&mut sink, root, h("div", vec![t("a"), t("b")]));
    let delta = &sink.ops[after_first..];
    assert_eq!(delta.len(), 2);
    expect_remove(&delta[0], 8, 3);
    expect_remove(&delta[1], 8, 2);
}

#[test]
fn children_grow_appends_exactly_the_tail() {
    let mut sink = Sink::new();
    let root = sink.query_selector("body");
    let mut vd = VirtualDom::new();
    vd.render(&mut sink, root, h("div", vec![t("a"), t("b"), t("c"), t("d")]));
    vd.render(&mut sink, root, h("div", vec![t("a"), t("b")]));
    let after_shrink = sink.ops.len();
    vd.render(&mut sink, root, h("div", vec![t("a"), t("b"), t("c"), t("d")]));
    let delta = &sink.ops[after_shrink..];
    assert_eq!(delta.len(), 4);
    expect_create_text(&delta[0], "c", 12);
    expect_append(&delta[1], 11, 12);
    expect_create_text(&delta[2], "d", 13);
    expect_append(&delta[3], 11, 13);
}

#[test]
fn tag_change_forces_single_full_replace() {
    let mut sink = Sink::new();
    let root = sink.query_selector("body");
    let mut vd = VirtualDom::new();
    vd.render(&mut sink, root, h("div", vec![t("x")]));
    let after_first = sink.ops.len();
    vd.render(&mut sink, root, h("span", vec![t("x")]));
    let delta = &sink.ops[after_first..];
    assert_eq!(delta.len(), 4);
    expect_create_element(&delta[0], "span", 3);
    expect_create_text(&delta[1], "x", 4);
    expect_append(&delta[2], 3, 4);
    expect_replace(&delta[3], 0, 0, 3);
}

#[test]
fn element_to_text_forces_replace() {
    let mut sink = Sink::new();
    let root = sink.query_selector("body");
    let mut vd = VirtualDom::new();
    vd.render(&mut sink, root, h("div", vec![]));
    let after_first = sink.ops.len();
    vd.render(&mut sink, root, t("x"));
    let delta = &sink.ops[after_first..];
    assert_eq!(delta.len(), 2);
    expect_create_text(&delta[0], "x", 2);
    expect_replace(&delta[1], 0, 0, 2);
}

#[test]
fn text_to_element_forces_replace() {
    let mut sink = Sink::new();
    let root = sink.query_selector("body");
    let mut vd = VirtualDom::new();
    vd.render(&mut sink, root, t("x"));
    let after_first = sink.ops.len();
    vd.render(&mut sink, root, h("div", vec![]));
    let delta = &sink.ops[after_first..];
    assert_eq!(delta.len(), 2);
    expect_create_element(&delta[0], "div", 2);
    expect_replace(&delta[1], 0, 0, 2);
}

#[test]
fn text_change_replaces_leaf() {
    let mut sink = Sink::new();
    let root = sink.query_selector("body");
    let mut vd = VirtualDom::new();
    vd.render(&mut sink, root, t("before"));
    let after_first = sink.ops.len();
    vd.render(&mut sink, root, t("after"));
    let delta = &sink.ops[after_first..];
    assert_eq!(delta.len(), 2);
    expect_create_text(&delta[0], "after", 2);
    expect_replace(&delta[1], 0, 0, 2);
}

#[test]
fn start_issues_the_two_demo_passes() {
    let sink = start();
    assert_eq!(sink.ops.len(), 18);
    // first pass: build the listing and append it under the root
    expect_create_element(&sink.ops[0], "div", 1);
    expect_create_element(&sink.ops[1], "h1", 2);
    expect_create_text(&sink.ops[2], "1", 3);
    expect_append(&sink.ops[3], 2, 3);
    expect_append(&sink.ops[4], 1, 2);
    expect_create_element(&sink.ops[5], "h2", 4);
    expect_create_text(&sink.ops[6], "2", 5);
    expect_append(&sink.ops[7], 4, 5);
    expect_append(&sink.ops[8], 1, 4);
    expect_create_element(&sink.ops[9], "h3", 6);
    expect_create_text(&sink.ops[10], "3", 7);
    expect_append(&sink.ops[11], 6, 7);
    expect_append(&sink.ops[12], 1, 6);
    expect_append(&sink.ops[13], 0, 1);
    // second pass: only the swapped first and third text leaves are replaced
    expect_create_text(&sink.ops[14], "3", 10);
    expect_replace(&sink.ops[15], 9, 0, 10);
    expect_create_text(&sink.ops[16], "1", 15);
    expect_replace(&sink.ops[17], 14, 0, 15);
}
