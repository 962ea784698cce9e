//! The plain value types a tree node is made of: tag names, attribute keys
//! and values, style keys and values, event triggers, namespaces, and the
//! weak handle standing for a node of the externally owned live document.
//!
//! Each type carries a view in which every text component is a `Seq<char>`,
//! so that two values built from different `String` allocations compare
//! equal where their text is equal. The [`ViewEq`] trait gives each type an
//! executable equality decision and a view-preserving copy.

use vstd::prelude::*;

verus! {

/// A weak identifier standing for a node in an externally owned live
/// document. It is recorded after rendering and never owns the real node:
/// dropping or stripping it leaves the live document untouched.
#[derive(Clone, Copy, PartialEq, Eq, Structural, Debug)]
pub struct LiveHandle {
    pub id: u64,
}

/// Types whose view carries all rendering-relevant content. `view_eq`
/// decides equality of views; `dup` copies a value without changing its
/// view.
pub trait ViewEq: View + Sized {
    fn view_eq(&self, other: &Self) -> (r: bool)
        ensures
            r == (self@ == other@),
    ;

    fn dup(&self) -> (r: Self)
        ensures
            r@ == self@,
    ;
}

/// A markup tag name: one of the common tags, or a custom element name.
pub enum Tag {
    Div,
    Span,
    P,
    A,
    Custom(String),
}

/// The view of a [`Tag`].
pub enum TagView {
    Div,
    Span,
    P,
    A,
    Custom(Seq<char>),
}

impl View for Tag {
    type V = TagView;

    open spec fn view(&self) -> TagView {
        match self {
            Tag::Div => TagView::Div,
            Tag::Span => TagView::Span,
            Tag::P => TagView::P,
            Tag::A => TagView::A,
            Tag::Custom(s) => TagView::Custom(s@),
        }
    }
}

impl ViewEq for Tag {
    fn view_eq(&self, other: &Self) -> (r: bool) {
        match (self, other) {
            (Tag::Div, Tag::Div) => true,
            (Tag::Span, Tag::Span) => true,
            (Tag::P, Tag::P) => true,
            (Tag::A, Tag::A) => true,
            (Tag::Custom(a), Tag::Custom(b)) => *a == *b,
            _ => false,
        }
    }

    fn dup(&self) -> (r: Self) {
        match self {
            Tag::Div => Tag::Div,
            Tag::Span => Tag::Span,
            Tag::P => Tag::P,
            Tag::A => Tag::A,
            Tag::Custom(s) => Tag::Custom(s.clone()),
        }
    }
}

/// An attribute key: one of the common keys, or a custom name.
pub enum At {
    Class,
    Id,
    Href,
    Custom(String),
}

/// The view of an [`At`].
pub enum AtView {
    Class,
    Id,
    Href,
    Custom(Seq<char>),
}

impl View for At {
    type V = AtView;

    open spec fn view(&self) -> AtView {
        match self {
            At::Class => AtView::Class,
            At::Id => AtView::Id,
            At::Href => AtView::Href,
            At::Custom(s) => AtView::Custom(s@),
        }
    }
}

impl ViewEq for At {
    fn view_eq(&self, other: &Self) -> (r: bool) {
        match (self, other) {
            (At::Class, At::Class) => true,
            (At::Id, At::Id) => true,
            (At::Href, At::Href) => true,
            (At::Custom(a), At::Custom(b)) => *a == *b,
            _ => false,
        }
    }

    fn dup(&self) -> (r: Self) {
        match self {
            At::Class => At::Class,
            At::Id => At::Id,
            At::Href => At::Href,
            At::Custom(s) => At::Custom(s.clone()),
        }
    }
}

/// An attribute value: a text value, a bare attribute rendered without a
/// value, or one the renderer ignores.
pub enum AtValue {
    Given(String),
    Bare,
    Ignored,
}

/// The view of an [`AtValue`].
pub enum AtValueView {
    Given(Seq<char>),
    Bare,
    Ignored,
}

impl View for AtValue {
    type V = AtValueView;

    open spec fn view(&self) -> AtValueView {
        match self {
            AtValue::Given(s) => AtValueView::Given(s@),
            AtValue::Bare => AtValueView::Bare,
            AtValue::Ignored => AtValueView::Ignored,
        }
    }
}

impl ViewEq for AtValue {
    fn view_eq(&self, other: &Self) -> (r: bool) {
        match (self, other) {
            (AtValue::Given(a), AtValue::Given(b)) => *a == *b,
            (AtValue::Bare, AtValue::Bare) => true,
            (AtValue::Ignored, AtValue::Ignored) => true,
            _ => false,
        }
    }

    fn dup(&self) -> (r: Self) {
        match self {
            AtValue::Given(s) => AtValue::Given(s.clone()),
            AtValue::Bare => AtValue::Bare,
            AtValue::Ignored => AtValue::Ignored,
        }
    }
}

/// A style property key.
pub enum St {
    Display,
    Color,
    Custom(String),
}

/// The view of a [`St`].
pub enum StView {
    Display,
    Color,
    Custom(Seq<char>),
}

impl View for St {
    type V = StView;

    open spec fn view(&self) -> StView {
        match self {
            St::Display => StView::Display,
            St::Color => StView::Color,
            St::Custom(s) => StView::Custom(s@),
        }
    }
}

impl ViewEq for St {
    fn view_eq(&self, other: &Self) -> (r: bool) {
        match (self, other) {
            (St::Display, St::Display) => true,
            (St::Color, St::Color) => true,
            (St::Custom(a), St::Custom(b)) => *a == *b,
            _ => false,
        }
    }

    fn dup(&self) -> (r: Self) {
        match self {
            St::Display => St::Display,
            St::Color => St::Color,
            St::Custom(s) => St::Custom(s.clone()),
        }
    }
}

/// A style value: a text value, or one the renderer ignores.
pub enum CssValue {
    Given(String),
    Ignored,
}

/// The view of a [`CssValue`].
pub enum CssValueView {
    Given(Seq<char>),
    Ignored,
}

impl View for CssValue {
    type V = CssValueView;

    open spec fn view(&self) -> CssValueView {
        match self {
            CssValue::Given(s) => CssValueView::Given(s@),
            CssValue::Ignored => CssValueView::Ignored,
        }
    }
}

impl ViewEq for CssValue {
    fn view_eq(&self, other: &Self) -> (r: bool) {
        match (self, other) {
            (CssValue::Given(a), CssValue::Given(b)) => *a == *b,
            (CssValue::Ignored, CssValue::Ignored) => true,
            _ => false,
        }
    }

    fn dup(&self) -> (r: Self) {
        match self {
            CssValue::Given(s) => CssValue::Given(s.clone()),
            CssValue::Ignored => CssValue::Ignored,
        }
    }
}

/// An event trigger: the kind of event a listener fires on.
pub enum Ev {
    Click,
    Input,
    Custom(String),
}

/// The view of an [`Ev`].
pub enum EvView {
    Click,
    Input,
    Custom(Seq<char>),
}

impl View for Ev {
    type V = EvView;

    open spec fn view(&self) -> EvView {
        match self {
            Ev::Click => EvView::Click,
            Ev::Input => EvView::Input,
            Ev::Custom(s) => EvView::Custom(s@),
        }
    }
}

impl ViewEq for Ev {
    fn view_eq(&self, other: &Self) -> (r: bool) {
        match (self, other) {
            (Ev::Click, Ev::Click) => true,
            (Ev::Input, Ev::Input) => true,
            (Ev::Custom(a), Ev::Custom(b)) => *a == *b,
            _ => false,
        }
    }

    fn dup(&self) -> (r: Self) {
        match self {
            Ev::Click => Ev::Click,
            Ev::Input => Ev::Input,
            Ev::Custom(s) => Ev::Custom(s.clone()),
        }
    }
}

/// A markup namespace tag: marks an element as belonging to a non-default
/// vocabulary. It affects how the live binding is created, and it takes
/// part in structural equality.
pub enum Namespace {
    Svg,
    Custom(String),
}

/// The view of a [`Namespace`].
pub enum NamespaceView {
    Svg,
    Custom(Seq<char>),
}

impl View for Namespace {
    type V = NamespaceView;

    open spec fn view(&self) -> NamespaceView {
        match self {
            Namespace::Svg => NamespaceView::Svg,
            Namespace::Custom(s) => NamespaceView::Custom(s@),
        }
    }
}

impl ViewEq for Namespace {
    fn view_eq(&self, other: &Self) -> (r: bool) {
        match (self, other) {
            (Namespace::Svg, Namespace::Svg) => true,
            (Namespace::Custom(a), Namespace::Custom(b)) => *a == *b,
            _ => false,
        }
    }

    fn dup(&self) -> (r: Self) {
        match self {
            Namespace::Svg => Namespace::Svg,
            Namespace::Custom(s) => Namespace::Custom(s.clone()),
        }
    }
}

/// The view of an optional namespace.
pub open spec fn ns_view(ns: Option<Namespace>) -> Option<NamespaceView> {
    match ns {
        Option::Some(n) => Option::Some(n@),
        Option::None => Option::None,
    }
}

} // verus!
