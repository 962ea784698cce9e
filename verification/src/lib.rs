//! A virtual document tree in the Elm style: an in-memory model of a markup
//! tree (tags, attributes, inline styles, event listeners, children,
//! lifecycle hooks) meant to be diffed against a previous tree and
//! reconciled against a live document by an external engine.
//!
//! The central type is [`el::El`], a tree node generic over a message type.
//! Structural equality between elements is deliberately shallow: it ignores
//! children and the live-document handle, so that diff engines can use it as
//! a fast path without recursing.

pub mod dict;
pub mod el;
pub mod markup;
pub mod values;
