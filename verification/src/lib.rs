//! A canonical JSON encoding for an in-memory HTML document tree, with the
//! inverse decoding.
//!
//! The tree model is a tagged union of node variants (document, doctype,
//! text, comment, element, processing instruction), each node owning an
//! ordered list of children.  The codec encodes a tree as a single JSON
//! value: every default-valued field is omitted on encode and restored on
//! decode, and qualified names have a compact string shorthand beside the
//! full object form, both of which the decoder accepts.

pub mod decode;
pub mod dom;
pub mod encode;
pub mod json;
pub mod laws;
