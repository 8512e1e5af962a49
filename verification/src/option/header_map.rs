//! The adapter for `Option<http::HeaderMap>`.

use crate::error::Error;
use crate::decoding::{decoded, is_refusal, offers};
use crate::encoding::encoded;
use crate::headers::{header_groups, well_formed, REFUSAL_FLOOR};
use crate::node::{Node, NodeView};
use crate::option::{deserialize_with, serialize_with};
use http::header::HeaderValue;
use http::HeaderMap;
use vstd::prelude::*;

verus! {

/// Encodes a header collection that may be absent.
pub fn serialize(headers: &Option<HeaderMap<HeaderValue>>, is_human_readable: bool) -> (node: Node)
    ensures
        match headers {
            Some(present) => node@ == encoded(header_groups(*present), is_human_readable),
            None => node@ == NodeView::Absent,
        },
{
    let inner = |present: &HeaderMap<HeaderValue>| -> (node: Node)
        ensures
            node@ == encoded(header_groups(*present), is_human_readable),
        { crate::header_map::serialize(present, is_human_readable) };
    serialize_with(headers, inner)
}

/// Decodes a header collection that may be absent.
pub fn deserialize(node: &Node, is_human_readable: bool) -> (result: Result<
    Option<HeaderMap<HeaderValue>>,
    Error,
>)
    ensures
        node@ == NodeView::Absent ==> result == Ok::<Option<HeaderMap<HeaderValue>>, Error>(None),
        is_refusal(result) ==> offers(node@, is_human_readable),
        is_refusal(result) ==> node@ is Mapping && node@->Mapping_0.len() >= REFUSAL_FLOOR,
        result matches Ok(Some(headers)) ==> well_formed(header_groups(headers)),
        node@ != NodeView::Absent && !is_refusal(result) ==> match decoded(
            node@,
            is_human_readable,
        ) {
            Ok(groups) => result matches Ok(Some(headers)) && header_groups(headers) == groups,
            Err(error) => result is Err && result->Err_0@ == error,
        },
{
    let inner = |tree: &Node| -> (result: Result<HeaderMap<HeaderValue>, Error>)
        ensures
            is_refusal(result) ==> offers(tree@, is_human_readable),
            is_refusal(result) ==> tree@ is Mapping && tree@->Mapping_0.len() >= REFUSAL_FLOOR,
            result is Ok ==> well_formed(header_groups(result->Ok_0)),
            !is_refusal(result) ==> match decoded(tree@, is_human_readable) {
                Ok(groups) => result is Ok && header_groups(result->Ok_0) == groups,
                Err(error) => result is Err && result->Err_0@ == error,
            },
        { crate::header_map::deserialize(tree, is_human_readable) };
    deserialize_with(node, inner)
}

} // verus!
