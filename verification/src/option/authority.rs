//! The adapter for `Option<http::uri::Authority>`.

use crate::authority::{authority_text, decoded};
use crate::error::Error;
use crate::node::{Node, NodeView};
use crate::option::{deserialize_with, serialize_with};
use http::uri::Authority;
use vstd::prelude::*;

verus! {

/// Encodes an authority that may be absent.
pub fn serialize(authority: &Option<Authority>) -> (node: Node)
    ensures
        match authority {
            Some(present) => node@ == NodeView::Str(authority_text(*present)),
            None => node@ == NodeView::Absent,
        },
{
    serialize_with(authority, crate::authority::serialize)
}

/// Decodes an authority that may be absent.
pub fn deserialize(node: &Node) -> (result: Result<Option<Authority>, Error>)
    ensures
        node@ == NodeView::Absent ==> result == Ok::<Option<Authority>, Error>(None),
        node@ != NodeView::Absent ==> match decoded(node@) {
            Ok(text) => result matches Ok(Some(authority)) && authority_text(authority) == text,
            Err(error) => result is Err && result->Err_0@ == error,
        },
{
    deserialize_with(node, crate::authority::deserialize)
}

} // verus!
