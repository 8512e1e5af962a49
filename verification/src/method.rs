//! The adapter for `http::Method`.

use crate::error::{accepted, Error, ErrorView, RejectedView};
use crate::node::{Node, NodeView};
use crate::token::is_token;
use http::method::InvalidMethod;
use http::Method;
use vstd::prelude::*;

verus! {

/// `http::Method`, carried as an opaque value.
#[verifier::external_type_specification]
#[verifier::external_body]
pub struct ExMethod(http::Method);

/// `http::method::InvalidMethod`, carried as an opaque value.
#[verifier::external_type_specification]
#[verifier::external_body]
pub struct ExInvalidMethod(http::method::InvalidMethod);

/// The token of a method: what `Method::as_str` returns.
pub uninterp spec fn method_text(method: Method) -> Seq<char>;

/// `Method::as_str` reads the token that the method holds: the name of one
/// of the standard methods, or text that `Method::from_bytes` accepted.
pub assume_specification<'a>[ Method::as_str ](method: &'a Method) -> (text: &'a str)
    ensures
        text@ == method_text(*method),
        is_token(text@),
;

/// `Method`'s `FromStr` accepts exactly the tokens, whatever their case, and
/// the method that it makes holds the token as it was given.
#[verifier::external_body]
fn parse_method(text: &str) -> (parsed: Result<Method, InvalidMethod>)
    ensures
        parsed is Ok <==> is_token(text@),
        parsed is Ok ==> method_text(parsed->Ok_0) == text@,
{
    text.parse()
}

/// What decoding a node as a method yields: the token of the method, or the
/// reason for which the node is refused.
pub open spec fn decoded(node: NodeView) -> Result<Seq<char>, ErrorView> {
    match node {
        NodeView::Str(text) => if is_token(text) {
            Ok(text)
        } else {
            Err(ErrorView::InvalidValue(RejectedView::Str(text)))
        },
        _ => Err(ErrorView::UnexpectedShape),
    }
}

/// Encodes a method as its token. Decoding the node gives the token back.
pub fn serialize(method: &Method) -> (node: Node)
    ensures
        node@ == NodeView::Str(method_text(*method)),
        decoded(node@) == Ok::<Seq<char>, ErrorView>(method_text(*method)),
{
    Node::Str(method.as_str().to_owned())
}

/// Decodes a method from a text node that holds a token.
pub fn deserialize(node: &Node) -> (result: Result<Method, Error>)
    ensures
        match decoded(node@) {
            Ok(text) => result is Ok && method_text(result->Ok_0) == text,
            Err(error) => result is Err && result->Err_0@ == error,
        },
{
    match node {
        Node::Str(text) => accepted(parse_method(text.as_str()), text.as_str()),
        _ => Err(Error::UnexpectedShape),
    }
}

} // verus!
