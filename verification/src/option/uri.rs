//! The adapter for `Option<http::Uri>`.

use crate::error::{Error, ErrorView, RejectedView};
use crate::node::{Node, NodeView};
use crate::option::{deserialize_with, serialize_with};
use crate::uri::{uri_parsed, uri_text};
use http::Uri;
use vstd::prelude::*;

verus! {

/// Encodes a URI that may be absent.
pub fn serialize(uri: &Option<Uri>) -> (node: Node)
    ensures
        match uri {
            Some(present) => node@ == NodeView::Str(uri_text(*present)),
            None => node@ == NodeView::Absent,
        },
{
    serialize_with(uri, crate::uri::serialize)
}

/// Decodes a URI that may be absent.
pub fn deserialize(node: &Node) -> (result: Result<Option<Uri>, Error>)
    ensures
        match node@ {
            NodeView::Absent => result == Ok::<Option<Uri>, Error>(None),
            NodeView::Str(text) => match uri_parsed(text) {
                Some(canonical) => result matches Ok(Some(uri)) && uri_text(uri) == canonical,
                None => result is Err && result->Err_0@ == ErrorView::InvalidValue(
                    RejectedView::Str(text),
                ),
            },
            _ => result is Err && result->Err_0@ == ErrorView::UnexpectedShape,
        },
{
    deserialize_with(node, crate::uri::deserialize)
}

} // verus!
