//! The markup import bridge. Raw markup is parsed by an external
//! document-parsing facility (text in, realized nodes out) that this layer
//! never reimplements; a bridging step turns each realized node into a tree
//! node where it can, and hands back nothing for node kinds it does not
//! recognize (comments, for one). This module renders the lightweight
//! markup language to markup text and assembles the bridged results,
//! silently skipping the unrecognized ones while keeping document order.

use crate::el::Node;
use vstd::prelude::*;

verus! {

/// The markup text the external renderer produces for a given piece of
/// lightweight markup; a function of the input text alone.
pub uninterp spec fn html_of_markdown(md: Seq<char>) -> Seq<char>;

/// Relies on `pulldown_cmark::Parser::new` and
/// `pulldown_cmark::html::push_html`: rendering is deterministic, with the
/// result a function of the input text alone, and writing to a `String`
/// buffer cannot fail.
#[verifier::external_body]
fn render_markdown(md: &str) -> (r: String)
    ensures
        r@ == html_of_markdown(md@),
{
    let parser = pulldown_cmark::Parser::new(md);
    let mut out = String::new();
    pulldown_cmark::html::push_html(&mut out, parser);
    out
}

/// Render a lightweight-markup string to markup text. The heavy lifting is
/// the external renderer's; this layer only fixes which text stands for the
/// input.
pub fn markdown_to_html(md: &str) -> (r: String)
    ensures
        r@ == html_of_markdown(md@),
{
    render_markdown(md)
}

/// The tree nodes among the bridged results, in document order; a bridge
/// result of `None` marks a realized node of an unrecognized kind, which is
/// skipped silently.
pub open spec fn converted_nodes<Ms>(parts: Seq<Option<Node<Ms>>>) -> Seq<Node<Ms>>
    decreases parts.len(),
{
    if parts.len() == 0 {
        Seq::empty()
    } else {
        converted_nodes(parts.drop_last()) + (match parts.last() {
            Option::Some(n) => seq![n],
            Option::None => Seq::<Node<Ms>>::empty(),
        })
    }
}

/// Assemble the bridged results of a parsed markup fragment: every node the
/// bridge recognized, in document order, with the unrecognized ones
/// silently dropped.
pub fn gather_converted<Ms>(parts: Vec<Option<Node<Ms>>>) -> (r: Vec<Node<Ms>>)
    ensures
        r@ == converted_nodes(parts@),
{
    let ghost orig = parts@;
    let mut rest = parts;
    let mut out: Vec<Node<Ms>> = Vec::new();
    let ghost mut i: int = 0;
    while rest.len() > 0
        invariant
            0 <= i <= orig.len(),
            rest@ == orig.skip(i),
            out@ == converted_nodes(orig.take(i)),
        decreases rest@.len(),
    {
        let p = rest.remove(0);
        proof {
            assert(orig.skip(i)[0] == orig[i]);
            assert(rest@ =~= orig.skip(i + 1));
            assert(orig.take(i + 1).drop_last() =~= orig.take(i));
            assert(orig.take(i + 1).last() == orig[i]);
        }
        match p {
            Option::Some(n) => {
                out.push(n);
                proof {
                    assert(out@ =~= converted_nodes(orig.take(i + 1)));
                }
            },
            Option::None => {
                proof {
                    assert(out@ =~= converted_nodes(orig.take(i + 1)));
                }
            },
        }
        proof {
            i = i + 1;
        }
    }
    proof {
        assert(orig.take(orig.len() as int) =~= orig);
    }
    out
}

} // verus!
