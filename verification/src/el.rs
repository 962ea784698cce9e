//! The tree node itself: [`El`], its sibling node kinds, and its mutation,
//! equality, duplication and message-remapping operations.
//!
//! Two policies of this model are deliberate and load-bearing for the diff
//! engine that consumes it:
//!
//! - Structural equality ([`El::eq`], specified by [`shallow_eq`]) covers
//!   tag, attributes, style, listener triggers and namespace. It excludes
//!   children and the live handle, so it can serve as a fast path without
//!   recursing; two elements with different children do compare equal.
//!   Listener equality compares the trigger only, never the callback.
//! - `Clone` yields a structural skeleton, not a behavioral copy: listeners
//!   and lifecycle hooks are reset at every level, since callbacks cannot be
//!   duplicated. A cloned tree is for structural comparison only.

use crate::dict::Dict;
use crate::values::{
    At, AtValue, AtValueView, AtView, CssValue, CssValueView, Ev, LiveHandle, Namespace, St,
    StView, Tag, TagView, ViewEq, ns_view,
};
use vstd::prelude::*;

verus! {

/// A binding from an event trigger to the message it produces.
pub struct Listener<Ms> {
    pub trigger: Ev,
    pub message: Ms,
}

/// Storage for the optional mount/update/unmount messages of an element.
/// This layer stores and remaps them; it never invokes them.
pub struct LifecycleHooks<Ms> {
    pub did_mount: Option<Ms>,
    pub did_update: Option<Ms>,
    pub will_unmount: Option<Ms>,
}

impl<Ms> LifecycleHooks<Ms> {
    /// True when no hook is set.
    pub open spec fn is_reset(self) -> bool {
        self.did_mount is None && self.did_update is None && self.will_unmount is None
    }

    /// Empty hook storage.
    pub fn new() -> (r: Self)
        ensures
            r.is_reset(),
    {
        LifecycleHooks { did_mount: Option::None, did_update: Option::None, will_unmount: Option::None }
    }
}

/// A text node: character data between tags, with its own live handle.
pub struct Text {
    pub text: String,
    pub node_ws: Option<LiveHandle>,
}

/// A node of the tree: an element, a text node, or an empty placeholder.
pub enum Node<Ms> {
    Element(El<Ms>),
    Text(Text),
    Empty,
}

/// An element of the virtual document tree, generic over the message type
/// `Ms` its listeners produce.
pub struct El<Ms> {
    pub tag: Tag,
    pub attrs: Dict<At, AtValue>,
    pub style: Dict<St, CssValue>,
    pub listeners: Vec<Listener<Ms>>,
    pub children: Vec<Node<Ms>>,
    /// The weak handle to the live document node, present only after the
    /// tree has been reconciled against a real document.
    pub node_ws: Option<LiveHandle>,
    pub namespace: Option<Namespace>,
    pub hooks: LifecycleHooks<Ms>,
}

impl<Ms> Node<Ms> {
    /// True of text nodes only.
    pub open spec fn spec_is_text(&self) -> bool {
        match self {
            Node::Text(_) => true,
            _ => false,
        }
    }

    /// Decides whether the node is a text node.
    #[verifier::when_used_as_spec(spec_is_text)]
    pub fn is_text(&self) -> (r: bool)
        ensures
            r == self.spec_is_text(),
    {
        match self {
            Node::Text(_) => true,
            _ => false,
        }
    }

    /// A fresh text node carrying `text`, with no live handle.
    pub fn new_text(text: &str) -> (r: Self)
        ensures
            (match r {
                Node::Text(t) => t.text@ == text@ && t.node_ws is None,
                _ => false,
            }),
    {
        Node::Text(Text { text: text.to_owned(), node_ws: Option::None })
    }
}

/// The concatenated text of the direct text nodes of `s`, in order, with no
/// separator; other node kinds contribute nothing.
pub open spec fn text_of<Ms>(s: Seq<Node<Ms>>) -> Seq<char>
    decreases s.len(),
{
    if s.len() == 0 {
        Seq::empty()
    } else {
        text_of(s.drop_last()) + (match s.last() {
            Node::Text(t) => t.text@,
            _ => Seq::<char>::empty(),
        })
    }
}

/// The subsequence of `s` without its text nodes, order preserved.
pub open spec fn keep_non_text<Ms>(s: Seq<Node<Ms>>) -> Seq<Node<Ms>>
    decreases s.len(),
{
    if s.len() == 0 {
        Seq::empty()
    } else if s.last().spec_is_text() {
        keep_non_text(s.drop_last())
    } else {
        keep_non_text(s.drop_last()).push(s.last())
    }
}

/// Equal in every field but the attribute map.
pub open spec fn eq_but_attrs<Ms>(a: El<Ms>, b: El<Ms>) -> bool {
    &&& b.tag == a.tag
    &&& b.style == a.style
    &&& b.listeners == a.listeners
    &&& b.children == a.children
    &&& b.node_ws == a.node_ws
    &&& b.namespace == a.namespace
    &&& b.hooks == a.hooks
}

/// Equal in every field but the style map.
pub open spec fn eq_but_style<Ms>(a: El<Ms>, b: El<Ms>) -> bool {
    &&& b.tag == a.tag
    &&& b.attrs == a.attrs
    &&& b.listeners == a.listeners
    &&& b.children == a.children
    &&& b.node_ws == a.node_ws
    &&& b.namespace == a.namespace
    &&& b.hooks == a.hooks
}

/// Equal in every field but the children.
pub open spec fn eq_but_children<Ms>(a: El<Ms>, b: El<Ms>) -> bool {
    &&& b.tag == a.tag
    &&& b.attrs == a.attrs
    &&& b.style == a.style
    &&& b.listeners == a.listeners
    &&& b.node_ws == a.node_ws
    &&& b.namespace == a.namespace
    &&& b.hooks == a.hooks
}

/// Equal in every field but the listener list.
pub open spec fn eq_but_listeners<Ms>(a: El<Ms>, b: El<Ms>) -> bool {
    &&& b.tag == a.tag
    &&& b.attrs == a.attrs
    &&& b.style == a.style
    &&& b.children == a.children
    &&& b.node_ws == a.node_ws
    &&& b.namespace == a.namespace
    &&& b.hooks == a.hooks
}

/// Equal in every field but the live handle.
pub open spec fn eq_but_handle<Ms>(a: El<Ms>, b: El<Ms>) -> bool {
    &&& b.tag == a.tag
    &&& b.attrs == a.attrs
    &&& b.style == a.style
    &&& b.listeners == a.listeners
    &&& b.children == a.children
    &&& b.namespace == a.namespace
    &&& b.hooks == a.hooks
}

/// Structural equality of elements: tag, attribute map, style map, listener
/// triggers (in order) and namespace, all at view level. Children and the
/// live handle are deliberately excluded, and listener callbacks (messages)
/// are never compared.
pub open spec fn shallow_eq<Ms>(a: El<Ms>, b: El<Ms>) -> bool {
    &&& a.tag@ == b.tag@
    &&& a.attrs@ == b.attrs@
    &&& a.style@ == b.style@
    &&& a.listeners@.len() == b.listeners@.len()
    &&& forall|i: int|
        0 <= i < a.listeners@.len() ==> (#[trigger] a.listeners@[i]).trigger@
            == b.listeners@[i].trigger@
    &&& ns_view(a.namespace) == ns_view(b.namespace)
}

/// The value of the class attribute after one more class `name` is added to
/// an element whose attribute map is `m`: appended after a single space if a
/// non-empty class value is present, the bare `name` otherwise.
pub open spec fn class_value_after(m: Map<AtView, AtValueView>, name: Seq<char>) -> Seq<char> {
    if m.contains_key(AtView::Class) {
        match m[AtView::Class] {
            AtValueView::Given(s) => if s.len() > 0 {
                s + seq![' '] + name
            } else {
                name
            },
            _ => name,
        }
    } else {
        name
    }
}

impl<Ms> El<Ms> {
    /// Create an empty element, specifying only the tag.
    pub fn empty(tag: Tag) -> (r: Self)
        ensures
            r.tag == tag,
            r.attrs@ == Map::<AtView, AtValueView>::empty(),
            r.attrs.wf(),
            r.style@ == Map::<StView, CssValueView>::empty(),
            r.style.wf(),
            r.listeners@.len() == 0,
            r.children@.len() == 0,
            r.node_ws is None,
            r.namespace is None,
            r.hooks.is_reset(),
    {
        El {
            tag,
            attrs: Dict::empty(),
            style: Dict::empty(),
            listeners: Vec::new(),
            children: Vec::new(),
            node_ws: Option::None,
            namespace: Option::None,
            hooks: LifecycleHooks::new(),
        }
    }

    /// Create an empty element in the vector-graphics namespace.
    pub fn empty_svg(tag: Tag) -> (r: Self)
        ensures
            r.tag == tag,
            r.attrs@ == Map::<AtView, AtValueView>::empty(),
            r.attrs.wf(),
            r.style@ == Map::<StView, CssValueView>::empty(),
            r.style.wf(),
            r.listeners@.len() == 0,
            r.children@.len() == 0,
            r.node_ws is None,
            r.namespace == Option::Some(Namespace::Svg),
            r.hooks.is_reset(),
    {
        let mut el = El::empty(tag);
        el.namespace = Option::Some(Namespace::Svg);
        el
    }

    /// Append a child node; the order of children is preserved.
    pub fn add_child(&mut self, element: Node<Ms>)
        ensures
            final(self).children@ == old(self).children@.push(element),
            eq_but_children(*old(self), *final(self)),
    {
        self.children.push(element);
    }

    /// Insert or overwrite an attribute: last write wins.
    pub fn add_attr(&mut self, key: At, val: AtValue)
        requires
            old(self).attrs.wf(),
        ensures
            final(self).attrs.wf(),
            final(self).attrs@ == old(self).attrs@.insert(key@, val@),
            eq_but_attrs(*old(self), *final(self)),
    {
        self.attrs.insert(key, val);
    }

    /// Add a class: appends after a single space when a non-empty class
    /// value exists, otherwise sets the value to `name` alone, so the first
    /// class added never gains a leading separator.
    pub fn add_class(&mut self, name: &str)
        requires
            old(self).attrs.wf(),
        ensures
            final(self).attrs.wf(),
            final(self).attrs@ == old(self).attrs@.insert(
                AtView::Class,
                AtValueView::Given(class_value_after(old(self).attrs@, name@)),
            ),
            eq_but_attrs(*old(self), *final(self)),
    {
        let newval: String = match self.attrs.get(&At::Class) {
            Option::Some(v) => match v {
                AtValue::Given(s) => {
                    if !s.as_str().is_empty() {
                        let mut t = s.clone();
                        t.append(" ");
                        t.append(name);
                        proof {
                            reveal_strlit(" ");
                            assert(" "@ =~= seq![' ']);
                        }
                        t
                    } else {
                        String::from_str(name)
                    }
                },
                _ => String::from_str(name),
            },
            Option::None => String::from_str(name),
        };
        self.attrs.insert(At::Class, AtValue::Given(newval));
    }

    /// Insert or overwrite a style property: last write wins.
    pub fn add_style(&mut self, key: St, val: CssValue)
        requires
            old(self).style.wf(),
        ensures
            final(self).style.wf(),
            final(self).style@ == old(self).style@.insert(key@, val@),
            eq_but_style(*old(self), *final(self)),
    {
        self.style.insert(key, val);
    }

    /// Append a listener; duplicates of the same trigger are kept and all
    /// fire — there is no deduplication.
    pub fn add_listener(&mut self, listener: Listener<Ms>)
        ensures
            final(self).listeners@ == old(self).listeners@.push(listener),
            eq_but_listeners(*old(self), *final(self)),
    {
        self.listeners.push(listener);
    }

    /// Append a text node child carrying `text`.
    pub fn add_text(&mut self, text: &str)
        ensures
            final(self).children@.len() == old(self).children@.len() + 1,
            final(self).children@.take(old(self).children@.len() as int) == old(self).children@,
            (match final(self).children@.last() {
                Node::Text(t) => t.text@ == text@ && t.node_ws is None,
                _ => false,
            }),
            eq_but_children(*old(self), *final(self)),
    {
        self.children.push(Node::new_text(text));
        proof {
            assert(final(self).children@.take(old(self).children@.len() as int) =~= old(
                self,
            ).children@);
        }
    }

    /// Replace the element's text: removes all text node children, wherever
    /// they stand, then appends one text node carrying `text`. Other
    /// children keep their order.
    pub fn replace_text(&mut self, text: &str)
        ensures
            final(self).children@.len() == keep_non_text(old(self).children@).len() + 1,
            final(self).children@.take(final(self).children@.len() - 1) == keep_non_text(
                old(self).children@,
            ),
            (match final(self).children@.last() {
                Node::Text(t) => t.text@ == text@ && t.node_ws is None,
                _ => false,
            }),
            eq_but_children(*old(self), *final(self)),
    {
        let ghost orig = self.children@;
        let mut rest: Vec<Node<Ms>> = Vec::new();
        core::mem::swap(&mut rest, &mut self.children);
        let mut kept: Vec<Node<Ms>> = Vec::new();
        let ghost mut i: int = 0;
        while rest.len() > 0
            invariant
                0 <= i <= orig.len(),
                rest@ == orig.skip(i),
                kept@ == keep_non_text(orig.take(i)),
            decreases rest@.len(),
        {
            let n = rest.remove(0);
            proof {
                assert(orig.skip(i)[0] == orig[i]);
                assert(rest@ =~= orig.skip(i + 1));
                assert(orig.take(i + 1).drop_last() =~= orig.take(i));
                assert(orig.take(i + 1).last() == orig[i]);
            }
            if !n.is_text() {
                kept.push(n);
            }
            proof {
                i = i + 1;
            }
        }
        proof {
            assert(orig.take(orig.len() as int) =~= orig);
        }
        kept.push(Node::new_text(text));
        self.children = kept;
        proof {
            assert(final(self).children@.take(final(self).children@.len() - 1) =~= keep_non_text(
                orig,
            ));
        }
    }

    /// Concatenate the text of all direct text node children, in order,
    /// with no separator; other children are ignored.
    pub fn get_text(&self) -> (r: String)
        ensures
            r@ == text_of(self.children@),
    {
        let mut out = String::new();
        let mut i: usize = 0;
        while i < self.children.len()
            invariant
                i <= self.children@.len(),
                out@ == text_of(self.children@.take(i as int)),
            decreases self.children@.len() - i,
        {
            match &self.children[i] {
                Node::Text(t) => {
                    out.append(t.text.as_str());
                },
                _ => {},
            }
            proof {
                assert(self.children@.take(i as int + 1).drop_last() =~= self.children@.take(
                    i as int,
                ));
                assert(self.children@.take(i as int + 1).last() == self.children@[i as int]);
                assert(out@ =~= text_of(self.children@.take(i as int + 1)));
            }
            i = i + 1;
        }
        proof {
            assert(self.children@.take(self.children@.len() as int) =~= self.children@);
        }
        out
    }

    /// Is the element's tag a custom tag?
    pub fn is_custom(&self) -> (r: bool)
        ensures
            r == (self.tag@ matches TagView::Custom(_)),
    {
        match &self.tag {
            Tag::Custom(_) => true,
            _ => false,
        }
    }

    /// Structural equality as the diff engine uses it; see [`shallow_eq`].
    /// Children and live handles are not compared, by design.
    pub fn eq(&self, other: &El<Ms>) -> (r: bool)
        requires
            self.attrs.wf(),
            other.attrs.wf(),
            self.style.wf(),
            other.style.wf(),
        ensures
            r == shallow_eq(*self, *other),
    {
        if !self.tag.view_eq(&other.tag) {
            return false;
        }
        if !self.attrs.dict_eq(&other.attrs) {
            return false;
        }
        if !self.style.dict_eq(&other.style) {
            return false;
        }
        if self.listeners.len() != other.listeners.len() {
            return false;
        }
        let mut i: usize = 0;
        while i < self.listeners.len()
            invariant
                self.listeners@.len() == other.listeners@.len(),
                i <= self.listeners@.len(),
                forall|j: int|
                    0 <= j < i ==> (#[trigger] self.listeners@[j]).trigger@
                        == other.listeners@[j].trigger@,
            decreases self.listeners@.len() - i,
        {
            if !self.listeners[i].trigger.view_eq(&other.listeners[i].trigger) {
                return false;
            }
            i = i + 1;
        }
        match (&self.namespace, &other.namespace) {
            (Option::Some(a), Option::Some(b)) => a.view_eq(b),
            (Option::None, Option::None) => true,
            _ => false,
        }
    }
}

/// Equality between elements excludes children: two elements equal in every
/// other field compare equal, whatever their children.
pub proof fn lemma_eq_ignores_children<Ms>(e1: El<Ms>, e2: El<Ms>)
    requires
        eq_but_children(e1, e2),
    ensures
        shallow_eq(e1, e2),
{
}

/// Equality between elements excludes the live handle: two elements equal
/// in every other field compare equal, whatever their handles.
pub proof fn lemma_eq_ignores_live_handle<Ms>(e1: El<Ms>, e2: El<Ms>)
    requires
        eq_but_handle(e1, e2),
    ensures
        shallow_eq(e1, e2),
{
}

/// A list of children without text nodes carries no text.
pub proof fn lemma_non_text_carries_no_text<Ms>(s: Seq<Node<Ms>>)
    ensures
        text_of(keep_non_text(s)) == Seq::<char>::empty(),
    decreases s.len(),
{
    if s.len() == 0 {
    } else {
        lemma_non_text_carries_no_text(s.drop_last());
        if !s.last().spec_is_text() {
            assert(keep_non_text(s).drop_last() =~= keep_non_text(s.drop_last()));
            assert(keep_non_text(s).last() == s.last());
            assert(text_of(keep_non_text(s)) =~= Seq::<char>::empty());
        }
    }
}

/// After a text replacement, the element's text is exactly the new text:
/// for any child list shaped as [`El::replace_text`] leaves it, the
/// concatenation [`text_of`] yields the replacement text alone.
pub proof fn lemma_text_after_replace<Ms>(olds: Seq<Node<Ms>>, news: Seq<Node<Ms>>, txt: Seq<char>)
    requires
        news.len() == keep_non_text(olds).len() + 1,
        news.take(news.len() - 1) == keep_non_text(olds),
        (match news.last() {
            Node::Text(t) => t.text@ == txt,
            _ => false,
        }),
    ensures
        text_of(news) == txt,
{
    lemma_non_text_carries_no_text(olds);
    assert(news.drop_last() =~= news.take(news.len() - 1));
    assert(text_of(news) =~= txt);
}

/// A clone of an element without listeners is structurally equal to it:
/// the skeleton copy preserves everything [`shallow_eq`] compares.
pub proof fn lemma_clone_preserves_shallow_eq<Ms>(a: El<Ms>, b: El<Ms>)
    requires
        el_cloned(a, b),
        a.listeners@.len() == 0,
    ensures
        shallow_eq(a, b),
{
}

/// `b` is `a` with its live handle cleared, recursively through all
/// children; every other field is untouched.
pub open spec fn el_stripped<Ms>(a: El<Ms>, b: El<Ms>) -> bool
    decreases a,
{
    &&& b.tag == a.tag
    &&& b.attrs == a.attrs
    &&& b.style == a.style
    &&& b.listeners == a.listeners
    &&& b.namespace == a.namespace
    &&& b.hooks == a.hooks
    &&& b.node_ws is None
    &&& b.children@.len() == a.children@.len()
    &&& forall|i: int|
        0 <= i < a.children@.len() ==> node_stripped(#[trigger] a.children@[i], b.children@[i])
}

/// The node form of [`el_stripped`].
pub open spec fn node_stripped<Ms>(a: Node<Ms>, b: Node<Ms>) -> bool
    decreases a,
{
    match (a, b) {
        (Node::Element(x), Node::Element(y)) => el_stripped(x, y),
        (Node::Text(t1), Node::Text(t2)) => t2.text == t1.text && t2.node_ws is None,
        (Node::Empty, Node::Empty) => true,
        _ => false,
    }
}

/// No node of the tree holds a live handle.
pub open spec fn el_no_handles<Ms>(a: El<Ms>) -> bool
    decreases a,
{
    &&& a.node_ws is None
    &&& forall|i: int| 0 <= i < a.children@.len() ==> node_no_handles(#[trigger] a.children@[i])
}

/// The node form of [`el_no_handles`].
pub open spec fn node_no_handles<Ms>(a: Node<Ms>) -> bool
    decreases a,
{
    match a {
        Node::Element(x) => el_no_handles(x),
        Node::Text(t) => t.node_ws is None,
        Node::Empty => true,
    }
}

/// After a strip, no level of the tree reports a live handle.
pub proof fn lemma_stripped_no_handles<Ms>(a: El<Ms>, b: El<Ms>)
    requires
        el_stripped(a, b),
    ensures
        el_no_handles(b),
    decreases a,
{
    assert forall|i: int| 0 <= i < b.children@.len() implies node_no_handles(
        #[trigger] b.children@[i],
    ) by {
        lemma_node_stripped_no_handles(a.children@[i], b.children@[i]);
    }
}

/// The node form of [`lemma_stripped_no_handles`].
pub proof fn lemma_node_stripped_no_handles<Ms>(a: Node<Ms>, b: Node<Ms>)
    requires
        node_stripped(a, b),
    ensures
        node_no_handles(b),
    decreases a,
{
    match (a, b) {
        (Node::Element(x), Node::Element(y)) => lemma_stripped_no_handles(x, y),
        _ => (),
    }
}

/// Stripping is idempotent: a tree that already holds no live handle
/// anywhere is a valid result of stripping itself.
pub proof fn lemma_strip_idempotent<Ms>(a: El<Ms>)
    requires
        el_no_handles(a),
    ensures
        el_stripped(a, a),
    decreases a,
{
    assert forall|i: int| 0 <= i < a.children@.len() implies node_stripped(
        #[trigger] a.children@[i],
        a.children@[i],
    ) by {
        lemma_node_strip_idempotent(a.children@[i]);
    }
}

/// The node form of [`lemma_strip_idempotent`].
pub proof fn lemma_node_strip_idempotent<Ms>(a: Node<Ms>)
    requires
        node_no_handles(a),
    ensures
        node_stripped(a, a),
    decreases a,
{
    match a {
        Node::Element(x) => lemma_strip_idempotent(x),
        _ => (),
    }
}

fn strip_node<Ms>(n: Node<Ms>) -> (r: Node<Ms>)
    ensures
        node_stripped(n, r),
    decreases n,
{
    match n {
        Node::Element(e) => Node::Element(strip_el(e)),
        Node::Text(t) => Node::Text(Text { text: t.text, node_ws: Option::None }),
        Node::Empty => Node::Empty,
    }
}

#[verifier::loop_isolation(false)]
fn strip_el<Ms>(e: El<Ms>) -> (r: El<Ms>)
    ensures
        el_stripped(e, r),
    decreases e,
{
    let ghost orig = e;
    let El { tag, attrs, style, listeners, children, node_ws: _, namespace, hooks } = e;
    let mut rest = children;
    let mut out: Vec<Node<Ms>> = Vec::new();
    let ghost mut i: int = 0;
    while rest.len() > 0
        invariant
            0 <= i <= orig.children@.len(),
            rest@ == orig.children@.skip(i),
            out@.len() == i,
            forall|j: int|
                0 <= j < i ==> node_stripped(#[trigger] orig.children@[j], out@[j]),
        decreases rest@.len(),
    {
        let n = rest.remove(0);
        proof {
            assert(orig.children@.skip(i)[0] == orig.children@[i]);
            assert(rest@ =~= orig.children@.skip(i + 1));
            assert(decreases_to!(orig => orig.children@[i]));
        }
        out.push(strip_node(n));
        proof {
            i = i + 1;
        }
    }
    El {
        tag,
        attrs,
        style,
        listeners,
        children: out,
        node_ws: Option::None,
        namespace,
        hooks,
    }
}

impl<Ms> El<Ms> {
    /// Clear the live handle of this element and, recursively and
    /// unconditionally, of every node below it. Stripping never touches the
    /// real document: the handle is a weak reference only.
    pub fn strip_ws_nodes_from_self_and_children(&mut self)
        ensures
            el_stripped(*old(self), *final(self)),
    {
        let mut tmp = El::empty(Tag::Div);
        core::mem::swap(self, &mut tmp);
        let stripped = strip_el(tmp);
        *self = stripped;
    }
}

/// `b` is a structural skeleton copy of `a`: tag, attributes, style,
/// namespace and live handle preserved at view level, children copied
/// recursively under the same rule, and listeners and lifecycle hooks reset.
pub open spec fn el_cloned<Ms>(a: El<Ms>, b: El<Ms>) -> bool
    decreases a,
{
    &&& b.tag@ == a.tag@
    &&& b.attrs@ == a.attrs@
    &&& (a.attrs.wf() ==> b.attrs.wf())
    &&& b.style@ == a.style@
    &&& (a.style.wf() ==> b.style.wf())
    &&& b.node_ws == a.node_ws
    &&& ns_view(b.namespace) == ns_view(a.namespace)
    &&& b.listeners@.len() == 0
    &&& b.hooks.is_reset()
    &&& b.children@.len() == a.children@.len()
    &&& forall|i: int|
        0 <= i < a.children@.len() ==> node_cloned(#[trigger] a.children@[i], b.children@[i])
}

/// The node form of [`el_cloned`].
pub open spec fn node_cloned<Ms>(a: Node<Ms>, b: Node<Ms>) -> bool
    decreases a,
{
    match (a, b) {
        (Node::Element(x), Node::Element(y)) => el_cloned(x, y),
        (Node::Text(t1), Node::Text(t2)) => t2.text@ == t1.text@ && t2.node_ws == t1.node_ws,
        (Node::Empty, Node::Empty) => true,
        _ => false,
    }
}

fn clone_node<Ms>(n: &Node<Ms>) -> (r: Node<Ms>)
    ensures
        node_cloned(*n, r),
    decreases n,
{
    match n {
        Node::Element(e) => Node::Element(clone_el(e)),
        Node::Text(t) => Node::Text(Text { text: t.text.clone(), node_ws: t.node_ws }),
        Node::Empty => Node::Empty,
    }
}

fn clone_el<Ms>(e: &El<Ms>) -> (r: El<Ms>)
    ensures
        el_cloned(*e, r),
    decreases e,
{
    let mut cs: Vec<Node<Ms>> = Vec::new();
    let mut i: usize = 0;
    while i < e.children.len()
        invariant
            i <= e.children@.len(),
            cs@.len() == i,
            forall|j: int| 0 <= j < i ==> node_cloned(#[trigger] e.children@[j], cs@[j]),
        decreases e.children@.len() - i,
    {
        proof {
            assert(decreases_to!(*e => e.children@[i as int]));
        }
        cs.push(clone_node(&e.children[i]));
        i = i + 1;
    }
    El {
        tag: e.tag.dup(),
        attrs: e.attrs.dup(),
        style: e.style.dup(),
        listeners: Vec::new(),
        children: cs,
        node_ws: e.node_ws,
        namespace: match &e.namespace {
            Option::Some(n) => Option::Some(n.dup()),
            Option::None => Option::None,
        },
        hooks: LifecycleHooks::new(),
    }
}

impl<Ms> Clone for El<Ms> {
    /// A structural skeleton copy, not a behavioral one: tag, attributes,
    /// style, namespace, live handle and children are copied (children
    /// recursively under the same rule), while listeners and lifecycle
    /// hooks are reset at every level, since callbacks cannot be
    /// duplicated. A cloned tree is for structural comparison; nothing
    /// relying on it may expect listeners to survive.
    fn clone(&self) -> (r: Self)
        ensures
            el_cloned(*self, r),
    {
        clone_el(self)
    }
}

impl<Ms> Clone for Node<Ms> {
    /// The node form of the element clone: the same skeleton-copy rule.
    fn clone(&self) -> (r: Self)
        ensures
            node_cloned(*self, r),
    {
        clone_node(self)
    }
}

/// `b.message` could have come from applying `f` to `a.message`; the
/// trigger is untouched.
pub open spec fn listener_mapped<Ms, M2, F: Fn(Ms) -> M2>(
    f: F,
    a: Listener<Ms>,
    b: Listener<M2>,
) -> bool {
    &&& b.trigger == a.trigger
    &&& call_ensures(f, (a.message,), b.message)
}

/// `b` is `a` with its message, if any, passed through `f`.
pub open spec fn opt_mapped<Ms, M2, F: Fn(Ms) -> M2>(f: F, a: Option<Ms>, b: Option<M2>) -> bool {
    match (a, b) {
        (Option::Some(x), Option::Some(y)) => call_ensures(f, (x,), y),
        (Option::None, Option::None) => true,
        _ => false,
    }
}

/// `b` is `a` with every listener message and every hook message passed
/// through `f` exactly once, each listener's trigger and every other field
/// unchanged, and every child remapped recursively under the same rule.
pub open spec fn el_mapped<Ms, M2, F: Fn(Ms) -> M2>(f: F, a: El<Ms>, b: El<M2>) -> bool
    decreases a,
{
    &&& b.tag == a.tag
    &&& b.attrs == a.attrs
    &&& b.style == a.style
    &&& b.node_ws == a.node_ws
    &&& b.namespace == a.namespace
    &&& b.listeners@.len() == a.listeners@.len()
    &&& forall|i: int|
        0 <= i < a.listeners@.len() ==> listener_mapped(f, #[trigger] a.listeners@[i], b.listeners@[i])
    &&& opt_mapped(f, a.hooks.did_mount, b.hooks.did_mount)
    &&& opt_mapped(f, a.hooks.did_update, b.hooks.did_update)
    &&& opt_mapped(f, a.hooks.will_unmount, b.hooks.will_unmount)
    &&& b.children@.len() == a.children@.len()
    &&& forall|i: int|
        0 <= i < a.children@.len() ==> node_mapped(f, #[trigger] a.children@[i], b.children@[i])
}

/// The node form of [`el_mapped`].
pub open spec fn node_mapped<Ms, M2, F: Fn(Ms) -> M2>(f: F, a: Node<Ms>, b: Node<M2>) -> bool
    decreases a,
{
    match (a, b) {
        (Node::Element(x), Node::Element(y)) => el_mapped(f, x, y),
        (Node::Text(t1), Node::Text(t2)) => t2 == t1,
        (Node::Empty, Node::Empty) => true,
        _ => false,
    }
}

fn map_opt<Ms, M2, F: Fn(Ms) -> M2>(o: Option<Ms>, f: &F) -> (r: Option<M2>)
    requires
        forall|m: Ms| #[trigger] f.requires((m,)),
    ensures
        opt_mapped(*f, o, r),
{
    match o {
        Option::Some(m) => Option::Some(f(m)),
        Option::None => Option::None,
    }
}

impl<Ms> El<Ms> {
    /// Produce the same element over another message type: every listener
    /// keeps its trigger and has its message passed through `f`, every hook
    /// message is passed through `f`, and every child is remapped
    /// recursively, so `f` runs once per message across the whole tree.
    /// This lets a subtree authored against a narrow message type be
    /// embedded in a tree authored against a broader one.
    #[verifier::loop_isolation(false)]
    pub fn map_msg<M2, F: Fn(Ms) -> M2>(self, f: &F) -> (r: El<M2>)
        requires
            forall|m: Ms| #[trigger] f.requires((m,)),
        ensures
            el_mapped(*f, self, r),
        decreases self,
    {
        let ghost orig = self;
        let El { tag, attrs, style, listeners, children, node_ws, namespace, hooks } = self;
        let mut ls: Vec<Listener<M2>> = Vec::new();
        let mut rest_l = listeners;
        let ghost mut i: int = 0;
        while rest_l.len() > 0
            invariant
                forall|m: Ms| #[trigger] f.requires((m,)),
                0 <= i <= orig.listeners@.len(),
                rest_l@ == orig.listeners@.skip(i),
                ls@.len() == i,
                forall|j: int|
                    0 <= j < i ==> listener_mapped(*f, #[trigger] orig.listeners@[j], ls@[j]),
            decreases rest_l@.len(),
        {
            let l = rest_l.remove(0);
            proof {
                assert(orig.listeners@.skip(i)[0] == orig.listeners@[i]);
                assert(rest_l@ =~= orig.listeners@.skip(i + 1));
            }
            let Listener { trigger, message } = l;
            let mapped = f(message);
            ls.push(Listener { trigger, message: mapped });
            proof {
                i = i + 1;
            }
        }
        let mut cs: Vec<Node<M2>> = Vec::new();
        let mut rest_c = children;
        let ghost mut k: int = 0;
        while rest_c.len() > 0
            invariant
                forall|m: Ms| #[trigger] f.requires((m,)),
                0 <= k <= orig.children@.len(),
                rest_c@ == orig.children@.skip(k),
                cs@.len() == k,
                forall|j: int|
                    0 <= j < k ==> node_mapped(*f, #[trigger] orig.children@[j], cs@[j]),
            decreases rest_c@.len(),
        {
            let n = rest_c.remove(0);
            proof {
                assert(orig.children@.skip(k)[0] == orig.children@[k]);
                assert(rest_c@ =~= orig.children@.skip(k + 1));
                assert(decreases_to!(orig => orig.children@[k]));
            }
            cs.push(n.map_msg(f));
            proof {
                k = k + 1;
            }
        }
        El {
            tag,
            attrs,
            style,
            listeners: ls,
            children: cs,
            node_ws,
            namespace,
            hooks: LifecycleHooks {
                did_mount: map_opt(hooks.did_mount, f),
                did_update: map_opt(hooks.did_update, f),
                will_unmount: map_opt(hooks.will_unmount, f),
            },
        }
    }
}

impl<Ms> Node<Ms> {
    /// Remap the node's messages through `f`; see [`El::map_msg`].
    pub fn map_msg<M2, F: Fn(Ms) -> M2>(self, f: &F) -> (r: Node<M2>)
        requires
            forall|m: Ms| #[trigger] f.requires((m,)),
        ensures
            node_mapped(*f, self, r),
        decreases self,
    {
        match self {
            Node::Element(e) => Node::Element(e.map_msg(f)),
            Node::Text(t) => Node::Text(t),
            Node::Empty => Node::Empty,
        }
    }
}

/// Remap a list of elements through `f`, preserving order; see
/// [`El::map_msg`].
pub fn map_msg_els<Ms, M2, F: Fn(Ms) -> M2>(els: Vec<El<Ms>>, f: &F) -> (r: Vec<El<M2>>)
    requires
        forall|m: Ms| #[trigger] f.requires((m,)),
    ensures
        r@.len() == els@.len(),
        forall|i: int| 0 <= i < els@.len() ==> el_mapped(*f, #[trigger] els@[i], r@[i]),
{
    let ghost orig = els@;
    let mut rest = els;
    let mut out: Vec<El<M2>> = Vec::new();
    let ghost mut i: int = 0;
    while rest.len() > 0
        invariant
            forall|m: Ms| #[trigger] f.requires((m,)),
            0 <= i <= orig.len(),
            rest@ == orig.skip(i),
            out@.len() == i,
            forall|j: int| 0 <= j < i ==> el_mapped(*f, #[trigger] orig[j], out@[j]),
        decreases rest@.len(),
    {
        let e = rest.remove(0);
        proof {
            assert(orig.skip(i)[0] == orig[i]);
            assert(rest@ =~= orig.skip(i + 1));
        }
        out.push(e.map_msg(f));
        proof {
            i = i + 1;
        }
    }
    out
}

} // verus!
