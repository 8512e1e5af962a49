//! The adapter for `Option<http::StatusCode>`.

use crate::error::Error;
use crate::node::{Node, NodeView};
use crate::option::{deserialize_with, serialize_with};
use crate::status_code::{decoded, status_number};
use http::StatusCode;
use vstd::prelude::*;

verus! {

/// Encodes a status code that may be absent.
pub fn serialize(status: &Option<StatusCode>) -> (node: Node)
    ensures
        match status {
            Some(present) => node@ == NodeView::U16(status_number(*present)),
            None => node@ == NodeView::Absent,
        },
{
    serialize_with(status, crate::status_code::serialize)
}

/// Decodes a status code that may be absent.
pub fn deserialize(node: &Node) -> (result: Result<Option<StatusCode>, Error>)
    ensures
        node@ == NodeView::Absent ==> result == Ok::<Option<StatusCode>, Error>(None),
        node@ != NodeView::Absent ==> match decoded(node@) {
            Ok(number) => result matches Ok(Some(status)) && status_number(status) == number,
            Err(error) => result is Err && result->Err_0@ == error,
        },
{
    deserialize_with(node, crate::status_code::deserialize)
}

} // verus!
