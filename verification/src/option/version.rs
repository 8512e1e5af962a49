//! The adapter for `Option<http::Version>`.

use crate::error::Error;
use crate::node::{Node, NodeView};
use crate::option::{deserialize_with, serialize_with};
use crate::version::{decoded, version_text};
use http::Version;
use vstd::prelude::*;

verus! {

/// Encodes a protocol version that may be absent.
pub fn serialize(version: &Option<Version>) -> (node: Node)
    ensures
        match version {
            Some(present) => node@ == NodeView::Str(version_text(*present)),
            None => node@ == NodeView::Absent,
        },
{
    serialize_with(version, crate::version::serialize)
}

/// Decodes a protocol version that may be absent.
pub fn deserialize(node: &Node) -> (result: Result<Option<Version>, Error>)
    ensures
        node@ == NodeView::Absent ==> result == Ok::<Option<Version>, Error>(None),
        node@ != NodeView::Absent ==> match decoded(node@) {
            Ok(text) => result matches Ok(Some(version)) && version_text(version) == text,
            Err(error) => result is Err && result->Err_0@ == error,
        },
{
    deserialize_with(node, crate::version::deserialize)
}

} // verus!
