//! A double-ended ordered list: an ordered sequence of elements with
//! constant-time insertion and removal at both ends and forward traversal.
//!
//! The list is a doubly-linked chain of nodes kept in an arena: nodes live in
//! one owning vector and refer to their neighbours by index, so no shared
//! mutable pointers are needed and removal can never find a node still
//! referenced elsewhere.

pub mod laws;
pub mod list;
