//! The adapter for `http::Uri`.

use crate::error::{accepted, Error, ErrorView, RejectedView};
use crate::node::{Node, NodeView};
use http::uri::InvalidUri;
use http::Uri;
use vstd::prelude::*;

verus! {

/// `http::Uri`, carried as an opaque value.
#[verifier::external_type_specification]
#[verifier::external_body]
pub struct ExUri(http::Uri);

/// `http::uri::InvalidUri`, carried as an opaque value.
#[verifier::external_type_specification]
#[verifier::external_body]
pub struct ExInvalidUri(http::uri::InvalidUri);

/// The text of a URI: what its `Display` writes.
pub uninterp spec fn uri_text(uri: Uri) -> Seq<char>;

/// What `Uri`'s `FromStr` makes of a text: the text of the URI that it
/// returns, or `None` where it refuses the text.
pub uninterp spec fn uri_parsed(text: Seq<char>) -> Option<Seq<char>>;

/// `Uri`'s `Display`, through `to_string`, writes the text of the URI.
#[verifier::external_body]
fn uri_to_string(uri: &Uri) -> (text: String)
    ensures
        text@ == uri_text(*uri),
{
    uri.to_string()
}

/// `Uri`'s `FromStr` parses a text by the grammar of URIs; what it returns
/// depends on the text alone.
#[verifier::external_body]
fn parse_uri(text: &str) -> (parsed: Result<Uri, InvalidUri>)
    ensures
        match parsed {
            Ok(uri) => uri_parsed(text@) == Some(uri_text(uri)),
            Err(_) => uri_parsed(text@) is None,
        },
{
    text.parse()
}

/// Encodes a URI as its text.
pub fn serialize(uri: &Uri) -> (node: Node)
    ensures
        node@ == NodeView::Str(uri_text(*uri)),
{
    Node::Str(uri_to_string(uri))
}

/// Decodes a URI from a text node that the grammar of URIs accepts.
pub fn deserialize(node: &Node) -> (result: Result<Uri, Error>)
    ensures
        match node@ {
            NodeView::Str(text) => match uri_parsed(text) {
                Some(canonical) => result is Ok && uri_text(result->Ok_0) == canonical,
                None => result is Err && result->Err_0@ == ErrorView::InvalidValue(
                    RejectedView::Str(text),
                ),
            },
            _ => result is Err && result->Err_0@ == ErrorView::UnexpectedShape,
        },
{
    match node {
        Node::Str(text) => accepted(parse_uri(text.as_str()), text.as_str()),
        _ => Err(Error::UnexpectedShape),
    }
}

} // verus!
