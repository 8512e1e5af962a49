//! The adapter for `http::uri::Authority`.

use crate::error::{accepted, Error, ErrorView, RejectedView};
use crate::node::{Node, NodeView};
use http::uri::{Authority, InvalidUri};
use vstd::prelude::*;

verus! {

/// `http::uri::Authority`, carried as an opaque value.
#[verifier::external_type_specification]
#[verifier::external_body]
pub struct ExAuthority(http::uri::Authority);

/// The text of an authority: what `Authority::as_str` returns.
pub uninterp spec fn authority_text(authority: Authority) -> Seq<char>;

/// Whether `Authority`'s `FromStr` accepts a text.
pub uninterp spec fn authority_accepted(text: Seq<char>) -> bool;

/// `Authority::as_str` reads the text that the authority holds.
pub assume_specification<'a>[ Authority::as_str ](authority: &'a Authority) -> (text: &'a str)
    ensures
        text@ == authority_text(*authority),
;

/// `Authority`'s `FromStr` parses a text by the grammar of authorities;
/// whether it accepts depends on the text alone, and the authority that it
/// makes holds the whole text as it was given.
#[verifier::external_body]
fn parse_authority(text: &str) -> (parsed: Result<Authority, InvalidUri>)
    ensures
        parsed is Ok <==> authority_accepted(text@),
        parsed is Ok ==> authority_text(parsed->Ok_0) == text@,
{
    text.parse()
}

/// What decoding a node as an authority yields: the text of the authority,
/// or the reason for which the node is refused.
pub open spec fn decoded(node: NodeView) -> Result<Seq<char>, ErrorView> {
    match node {
        NodeView::Str(text) => if authority_accepted(text) {
            Ok(text)
        } else {
            Err(ErrorView::InvalidValue(RejectedView::Str(text)))
        },
        _ => Err(ErrorView::UnexpectedShape),
    }
}

/// Encodes an authority as its text.
pub fn serialize(authority: &Authority) -> (node: Node)
    ensures
        node@ == NodeView::Str(authority_text(*authority)),
{
    Node::Str(authority.as_str().to_owned())
}

/// Decodes an authority from a text node that the grammar of authorities
/// accepts.
pub fn deserialize(node: &Node) -> (result: Result<Authority, Error>)
    ensures
        match decoded(node@) {
            Ok(text) => result is Ok && authority_text(result->Ok_0) == text,
            Err(error) => result is Err && result->Err_0@ == error,
        },
{
    match node {
        Node::Str(text) => accepted(parse_authority(text.as_str()), text.as_str()),
        _ => Err(Error::UnexpectedShape),
    }
}

} // verus!
