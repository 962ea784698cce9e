use vdom_el::el::{El, Node};
use vdom_el::markup::{gather_converted, markdown_to_html};
use vdom_el::values::Tag;

#[test]
fn markdown_is_rendered_to_markup_text() {
    let html = markdown_to_html("*hi*");
    assert!(html.contains("<em>hi</em>"));
    assert_ne!(html, String::from("*hi*"));
}

#[test]
fn markdown_heading_rendering_is_exact() {
    assert_eq!(markdown_to_html("# t"), String::from("<h1>t</h1>\n"));
}

#[test]
fn markup_import_skips_unconverted_nodes() {
    // The bridge hands back one converted span for "<span>hi</span>" and
    // nothing for the comment "<!-- c -->": exactly one tree node remains.
    let mut span: El<u32> = El::empty(Tag::Span);
    span.add_text("hi");
    let parts: Vec<Option<Node<u32>>> = vec![Some(Node::Element(span)), None];
    let nodes = gather_converted(parts);
    assert_eq!(nodes.len(), 1);
    match &nodes[0] {
        Node::Element(el) => {
            assert!(matches!(el.tag, Tag::Span));
            assert_eq!(el.get_text(), String::from("hi"));
        }
        _ => panic!("the single node should be the span"),
    }
}

#[test]
fn markup_import_keeps_document_order() {
    let a: El<u32> = El::empty(Tag::Div);
    let b: El<u32> = El::empty(Tag::P);
    let parts: Vec<Option<Node<u32>>> =
        vec![None, Some(Node::Element(a)), None, Some(Node::Element(b))];
    let nodes = gather_converted(parts);
    assert_eq!(nodes.len(), 2);
    assert!(matches!(&nodes[0], Node::Element(el) if matches!(el.tag, Tag::Div)));
    assert!(matches!(&nodes[1], Node::Element(el) if matches!(el.tag, Tag::P)));
}
