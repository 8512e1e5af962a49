//! The adapter for `http::Version`.

use crate::error::{Error, ErrorView, RejectedView};
use crate::node::{Node, NodeView};
use http::Version;
use vstd::prelude::*;

verus! {

/// `http::Version`, carried as an opaque value.
#[verifier::external_type_specification]
#[verifier::external_body]
pub struct ExVersion(http::Version);

/// The text of a protocol version: what its `Debug` writes.
pub uninterp spec fn version_text(version: Version) -> Seq<char>;

/// `Version`'s `Debug` writes the text of the version.
#[verifier::external_body]
fn version_to_string(version: &Version) -> (text: String)
    ensures
        text@ == version_text(*version),
{
    format!("{:?}", version)
}

/// `Version::HTTP_09`, which `Debug` writes as `HTTP/0.9`.
#[verifier::external_body]
fn http_09() -> (version: Version)
    ensures
        version_text(version) == "HTTP/0.9"@,
{
    Version::HTTP_09
}

/// `Version::HTTP_10`, which `Debug` writes as `HTTP/1.0`.
#[verifier::external_body]
fn http_10() -> (version: Version)
    ensures
        version_text(version) == "HTTP/1.0"@,
{
    Version::HTTP_10
}

/// `Version::HTTP_11`, which `Debug` writes as `HTTP/1.1`.
#[verifier::external_body]
fn http_11() -> (version: Version)
    ensures
        version_text(version) == "HTTP/1.1"@,
{
    Version::HTTP_11
}

/// `Version::HTTP_2`, which `Debug` writes as `HTTP/2.0`.
#[verifier::external_body]
fn http_2() -> (version: Version)
    ensures
        version_text(version) == "HTTP/2.0"@,
{
    Version::HTTP_2
}

/// `Version::HTTP_3`, which `Debug` writes as `HTTP/3.0`.
#[verifier::external_body]
fn http_3() -> (version: Version)
    ensures
        version_text(version) == "HTTP/3.0"@,
{
    Version::HTTP_3
}

/// The texts that stand for a protocol version.
pub open spec fn is_version_text(text: Seq<char>) -> bool {
    ||| text == "HTTP/0.9"@
    ||| text == "HTTP/1.0"@
    ||| text == "HTTP/1.1"@
    ||| text == "HTTP/2.0"@
    ||| text == "HTTP/3.0"@
}

/// What decoding a node as a protocol version yields: the text of the
/// version, or the reason for which the node is refused.
pub open spec fn decoded(node: NodeView) -> Result<Seq<char>, ErrorView> {
    match node {
        NodeView::Str(text) => if is_version_text(text) {
            Ok(text)
        } else {
            Err(ErrorView::InvalidValue(RejectedView::Str(text)))
        },
        _ => Err(ErrorView::UnexpectedShape),
    }
}

/// Tells whether a text reads as the given label.
fn reads(text: &String, label: &str) -> (same: bool)
    ensures
        same <==> text@ == label@,
{
    *text == label.to_owned()
}

/// Encodes a protocol version as its text.
pub fn serialize(version: &Version) -> (node: Node)
    ensures
        node@ == NodeView::Str(version_text(*version)),
{
    Node::Str(version_to_string(version))
}

/// Decodes a protocol version from a text node that holds one of the five
/// version texts.
pub fn deserialize(node: &Node) -> (result: Result<Version, Error>)
    ensures
        match decoded(node@) {
            Ok(text) => result is Ok && version_text(result->Ok_0) == text,
            Err(error) => result is Err && result->Err_0@ == error,
        },
{
    match node {
        Node::Str(text) => {
            if reads(text, "HTTP/0.9") {
                Ok(http_09())
            } else if reads(text, "HTTP/1.0") {
                Ok(http_10())
            } else if reads(text, "HTTP/1.1") {
                Ok(http_11())
            } else if reads(text, "HTTP/2.0") {
                Ok(http_2())
            } else if reads(text, "HTTP/3.0") {
                Ok(http_3())
            } else {
                Err(Error::invalid_str(text.as_str()))
            }
        },
        _ => Err(Error::UnexpectedShape),
    }
}

} // verus!
