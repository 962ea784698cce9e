use std::cell::Cell;
use vdom_el::el::{map_msg_els, El, LifecycleHooks, Listener, Node, Text};
use vdom_el::values::{At, AtValue, CssValue, Ev, LiveHandle, Namespace, St, Tag};

fn given(s: &str) -> AtValue {
    AtValue::Given(String::from(s))
}

fn class_of(el: &El<u32>) -> Option<String> {
    match el.attrs.get(&At::Class) {
        Some(AtValue::Given(s)) => Some(s.clone()),
        _ => None,
    }
}

#[test]
fn eq_ignores_children() {
    let mut e1: El<u32> = El::empty(Tag::Div);
    e1.add_attr(At::Id, given("x"));
    let mut e2: El<u32> = El::empty(Tag::Div);
    e2.add_attr(At::Id, given("x"));
    e2.add_text("only e2 has a child");
    e2.add_child(Node::Element(El::empty(Tag::Span)));
    assert!(e1.eq(&e2));
    assert!(e2.eq(&e1));
}

#[test]
fn eq_ignores_live_handle() {
    let e1: El<u32> = El::empty(Tag::P);
    let mut e2: El<u32> = El::empty(Tag::P);
    e2.node_ws = Some(LiveHandle { id: 7 });
    assert!(e1.eq(&e2));
}

#[test]
fn eq_sees_tag_attrs_style_namespace() {
    let e1: El<u32> = El::empty(Tag::Div);
    let e2: El<u32> = El::empty(Tag::Span);
    assert!(!e1.eq(&e2));

    let mut a1: El<u32> = El::empty(Tag::Div);
    a1.add_attr(At::Id, given("x"));
    let a2: El<u32> = El::empty(Tag::Div);
    assert!(!a1.eq(&a2));

    let mut s1: El<u32> = El::empty(Tag::Div);
    s1.add_style(St::Color, CssValue::Given(String::from("red")));
    let s2: El<u32> = El::empty(Tag::Div);
    assert!(!s1.eq(&s2));

    let n1: El<u32> = El::empty_svg(Tag::Custom(String::from("circle")));
    let n2: El<u32> = El::empty(Tag::Custom(String::from("circle")));
    assert!(!n1.eq(&n2));
}

#[test]
fn eq_attrs_insertion_order_is_irrelevant() {
    let mut e1: El<u32> = El::empty(Tag::Div);
    e1.add_attr(At::Id, given("x"));
    e1.add_attr(At::Href, given("y"));
    let mut e2: El<u32> = El::empty(Tag::Div);
    e2.add_attr(At::Href, given("y"));
    e2.add_attr(At::Id, given("x"));
    assert!(e1.eq(&e2));
}

#[test]
fn eq_compares_listener_triggers_only() {
    // A known sharp edge: listeners with the same trigger but different
    // messages (behavior) still compare equal; a differing trigger does not.
    let mut e1: El<u32> = El::empty(Tag::Div);
    e1.add_listener(Listener { trigger: Ev::Click, message: 1 });
    let mut e2: El<u32> = El::empty(Tag::Div);
    e2.add_listener(Listener { trigger: Ev::Click, message: 2 });
    assert!(e1.eq(&e2));

    let mut e3: El<u32> = El::empty(Tag::Div);
    e3.add_listener(Listener { trigger: Ev::Input, message: 1 });
    assert!(!e1.eq(&e3));
}

#[test]
fn add_attr_last_write_wins() {
    let mut e: El<u32> = El::empty(Tag::Div);
    e.add_attr(At::Id, given("a"));
    e.add_attr(At::Id, given("b"));
    match e.attrs.get(&At::Id) {
        Some(AtValue::Given(s)) => assert_eq!(s.as_str(), "b"),
        _ => panic!("id attribute missing"),
    }
}

#[test]
fn add_class_foo_then_bar() {
    let mut e: El<u32> = El::empty(Tag::Div);
    e.add_class("foo");
    e.add_class("bar");
    assert_eq!(class_of(&e), Some(String::from("foo bar")));
}

#[test]
fn add_class_empty_then_x() {
    let mut e: El<u32> = El::empty(Tag::Div);
    e.add_class("");
    e.add_class("x");
    assert_eq!(class_of(&e), Some(String::from("x")));
}

#[test]
fn add_class_over_bare_value_replaces() {
    let mut e: El<u32> = El::empty(Tag::Div);
    e.add_attr(At::Class, AtValue::Bare);
    e.add_class("x");
    assert_eq!(class_of(&e), Some(String::from("x")));
}

#[test]
fn add_style_inserts_and_overwrites() {
    let mut e: El<u32> = El::empty(Tag::Div);
    e.add_style(St::Display, CssValue::Given(String::from("block")));
    e.add_style(St::Display, CssValue::Given(String::from("flex")));
    match e.style.get(&St::Display) {
        Some(CssValue::Given(s)) => assert_eq!(s.as_str(), "flex"),
        _ => panic!("display style missing"),
    }
}

#[test]
fn add_listener_keeps_duplicate_triggers() {
    let mut e: El<u32> = El::empty(Tag::Div);
    e.add_listener(Listener { trigger: Ev::Click, message: 1 });
    e.add_listener(Listener { trigger: Ev::Click, message: 2 });
    assert_eq!(e.listeners.len(), 2);
    assert_eq!(e.listeners[0].message, 1);
    assert_eq!(e.listeners[1].message, 2);
}

#[test]
fn replace_text_removes_all_text_and_appends_one() {
    let mut e: El<u32> = El::empty(Tag::Div);
    e.add_text("a");
    e.add_child(Node::Element(El::empty(Tag::Span)));
    e.add_text("b");
    e.replace_text("c");
    assert_eq!(e.children.len(), 2);
    match &e.children[0] {
        Node::Element(el) => assert!(matches!(el.tag, Tag::Span)),
        _ => panic!("first child should be the span"),
    }
    match &e.children[1] {
        Node::Text(t) => assert_eq!(t.text.as_str(), "c"),
        _ => panic!("last child should be the new text"),
    }
    assert_eq!(e.get_text(), String::from("c"));
}

#[test]
fn get_text_concatenates_direct_text_children() {
    let mut e: El<u32> = El::empty(Tag::Div);
    e.add_text("a");
    e.add_child(Node::Element(El::empty(Tag::Span)));
    e.add_text("b");
    assert_eq!(e.get_text(), String::from("ab"));
}

#[test]
fn get_text_ignores_nested_text() {
    let mut inner: El<u32> = El::empty(Tag::Span);
    inner.add_text("hidden");
    let mut e: El<u32> = El::empty(Tag::Div);
    e.add_child(Node::Element(inner));
    assert_eq!(e.get_text(), String::new());
}

fn handle_everywhere(depth: u32) -> El<u32> {
    let mut e: El<u32> = El::empty(Tag::Div);
    e.node_ws = Some(LiveHandle { id: depth as u64 });
    e.add_child(Node::Text(Text {
        text: String::from("t"),
        node_ws: Some(LiveHandle { id: 100 + depth as u64 }),
    }));
    if depth > 1 {
        e.add_child(Node::Element(handle_everywhere(depth - 1)));
    }
    e
}

fn assert_no_handles(e: &El<u32>) {
    assert!(e.node_ws.is_none());
    for c in &e.children {
        match c {
            Node::Element(el) => assert_no_handles(el),
            Node::Text(t) => assert!(t.node_ws.is_none()),
            Node::Empty => {}
        }
    }
}

#[test]
fn strip_clears_handles_at_every_depth() {
    let mut e = handle_everywhere(3);
    assert!(e.node_ws.is_some());
    e.strip_ws_nodes_from_self_and_children();
    assert_no_handles(&e);
    // idempotent: stripping again changes nothing observable
    e.strip_ws_nodes_from_self_and_children();
    assert_no_handles(&e);
    assert_eq!(e.children.len(), 2);
}

#[test]
fn map_msg_maps_each_message_once_and_keeps_triggers() {
    let mut child: El<u32> = El::empty(Tag::Span);
    child.add_listener(Listener { trigger: Ev::Input, message: 3 });
    let mut e: El<u32> = El::empty(Tag::Div);
    e.add_listener(Listener { trigger: Ev::Click, message: 1 });
    e.add_listener(Listener { trigger: Ev::Click, message: 2 });
    e.hooks.did_mount = Some(4);
    e.add_child(Node::Element(child));
    e.add_text("txt");

    let calls = Cell::new(0u32);
    let f = |m: u32| {
        calls.set(calls.get() + 1);
        m + 1000
    };
    let mapped = e.map_msg(&f);

    // four messages in the tree, each passed through f exactly once
    assert_eq!(calls.get(), 4);
    assert_eq!(mapped.listeners.len(), 2);
    assert!(matches!(mapped.listeners[0].trigger, Ev::Click));
    assert_eq!(mapped.listeners[0].message, 1001);
    assert_eq!(mapped.listeners[1].message, 1002);
    assert_eq!(mapped.hooks.did_mount, Some(1004));
    assert_eq!(mapped.children.len(), 2);
    match &mapped.children[0] {
        Node::Element(el) => {
            assert_eq!(el.listeners.len(), 1);
            assert!(matches!(el.listeners[0].trigger, Ev::Input));
            assert_eq!(el.listeners[0].message, 1003);
        }
        _ => panic!("first child should be the span"),
    }
    assert_eq!(mapped.get_text(), String::from("txt"));
}

#[test]
fn map_msg_els_maps_every_element() {
    let mut e1: El<u32> = El::empty(Tag::Div);
    e1.add_listener(Listener { trigger: Ev::Click, message: 1 });
    let mut e2: El<u32> = El::empty(Tag::Span);
    e2.add_listener(Listener { trigger: Ev::Click, message: 2 });
    let f = |m: u32| m * 2;
    let mapped = map_msg_els(vec![e1, e2], &f);
    assert_eq!(mapped.len(), 2);
    assert_eq!(mapped[0].listeners[0].message, 2);
    assert_eq!(mapped[1].listeners[0].message, 4);
}

#[test]
fn clone_is_a_skeleton_copy() {
    let mut e: El<u32> = El::empty(Tag::Div);
    e.add_attr(At::Id, given("x"));
    e.add_class("c");
    e.add_style(St::Color, CssValue::Given(String::from("red")));
    e.add_listener(Listener { trigger: Ev::Click, message: 1 });
    e.hooks = LifecycleHooks {
        did_mount: Some(2),
        did_update: Some(3),
        will_unmount: None,
    };
    e.node_ws = Some(LiveHandle { id: 9 });
    e.add_text("hello");

    let c = e.clone();
    assert_eq!(c.listeners.len(), 0);
    assert!(c.hooks.did_mount.is_none());
    assert!(c.hooks.did_update.is_none());
    assert!(c.hooks.will_unmount.is_none());
    assert_eq!(c.node_ws, Some(LiveHandle { id: 9 }));
    assert_eq!(c.children.len(), 1);
    assert_eq!(c.get_text(), String::from("hello"));
    assert_eq!(class_of(&c), Some(String::from("c")));
    // structurally equal apart from the listener list
    let mut c2 = c;
    c2.add_listener(Listener { trigger: Ev::Click, message: 1 });
    assert!(e.eq(&c2));
}

#[test]
fn empty_leaves_every_field_default() {
    let e: El<u32> = El::empty(Tag::A);
    assert!(matches!(e.tag, Tag::A));
    assert_eq!(e.listeners.len(), 0);
    assert_eq!(e.children.len(), 0);
    assert!(e.node_ws.is_none());
    assert!(e.namespace.is_none());
    assert!(e.hooks.did_mount.is_none());
    assert!(e.attrs.get(&At::Class).is_none());
}

#[test]
fn empty_svg_sets_namespace() {
    let e: El<u32> = El::empty_svg(Tag::Custom(String::from("circle")));
    assert!(matches!(e.namespace, Some(Namespace::Svg)));
}

#[test]
fn is_custom_detects_custom_tags() {
    let c: El<u32> = El::empty(Tag::Custom(String::from("my-widget")));
    assert!(c.is_custom());
    let d: El<u32> = El::empty(Tag::Div);
    assert!(!d.is_custom());
}
