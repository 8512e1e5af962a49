//! Adapters for values that may be absent: each lifts the adapter of a value
//! type to `Option` of that type.

pub mod authority;
pub mod header_map;
pub mod method;
pub mod status_code;
pub mod uri;
pub mod version;

use crate::error::Error;
use crate::node::{Node, NodeView};
use vstd::prelude::*;

verus! {

/// Encodes a value that may be absent: a present value as its own encoder
/// does it, an absent one as the absence marker.
pub fn serialize_with<T, F: FnOnce(&T) -> Node>(value: &Option<T>, inner: F) -> (node: Node)
    requires
        value matches Some(present) ==> call_requires(inner, (&present,)),
    ensures
        match value {
            Some(present) => call_ensures(inner, (&present,), node),
            None => node@ == NodeView::Absent,
        },
{
    match value {
        Some(present) => inner(present),
        None => Node::Absent,
    }
}

/// Decodes a value that may be absent: the absence marker as `None`, any
/// other node as the decoder of the value does it. The shape of the node is
/// left to that decoder.
pub fn deserialize_with<T, F: FnOnce(&Node) -> Result<T, Error>>(node: &Node, inner: F) -> (result:
    Result<Option<T>, Error>)
    requires
        node@ != NodeView::Absent ==> call_requires(inner, (node,)),
    ensures
        node@ == NodeView::Absent ==> result == Ok::<Option<T>, Error>(None),
        node@ != NodeView::Absent ==> match result {
            Ok(Some(present)) => call_ensures(inner, (node,), Ok(present)),
            Ok(None) => false,
            Err(error) => call_ensures(inner, (node,), Err(error)),
        },
{
    if node.is_absent() {
        Ok(None)
    } else {
        match inner(node) {
            Ok(present) => Ok(Some(present)),
            Err(error) => Err(error),
        }
    }
}

} // verus!
