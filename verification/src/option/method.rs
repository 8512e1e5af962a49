//! The adapter for `Option<http::Method>`.

use crate::error::Error;
use crate::method::{decoded, method_text};
use crate::node::{Node, NodeView};
use crate::option::{deserialize_with, serialize_with};
use http::Method;
use vstd::prelude::*;

verus! {

/// Encodes a method that may be absent.
pub fn serialize(method: &Option<Method>) -> (node: Node)
    ensures
        match method {
            Some(present) => node@ == NodeView::Str(method_text(*present)),
            None => node@ == NodeView::Absent,
        },
{
    serialize_with(method, crate::method::serialize)
}

/// Decodes a method that may be absent.
pub fn deserialize(node: &Node) -> (result: Result<Option<Method>, Error>)
    ensures
        node@ == NodeView::Absent ==> result == Ok::<Option<Method>, Error>(None),
        node@ != NodeView::Absent ==> match decoded(node@) {
            Ok(text) => result matches Ok(Some(method)) && method_text(method) == text,
            Err(error) => result is Err && result->Err_0@ == error,
        },
{
    deserialize_with(node, crate::method::deserialize)
}

} // verus!
