//! The adapter for `http::StatusCode`.

use crate::error::{Error, ErrorView, RejectedView};
use crate::node::{Node, NodeView};
use http::status::InvalidStatusCode;
use http::StatusCode;
use vstd::prelude::*;

verus! {

/// `http::StatusCode`, carried as an opaque value.
#[verifier::external_type_specification]
#[verifier::external_body]
pub struct ExStatusCode(http::StatusCode);

/// `http::status::InvalidStatusCode`, carried as an opaque value.
#[verifier::external_type_specification]
#[verifier::external_body]
pub struct ExInvalidStatusCode(http::status::InvalidStatusCode);

/// The number of a status code: what `StatusCode::as_u16` returns.
pub uninterp spec fn status_number(status: StatusCode) -> u16;

/// `StatusCode::as_u16` reads the number that the status code holds, which
/// lies between 100 and 999: the type supports no other.
pub assume_specification[ StatusCode::as_u16 ](status: &StatusCode) -> (number: u16)
    ensures
        number == status_number(*status),
        100 <= number <= 999,
;

/// `StatusCode::from_u16` accepts the numbers from 100 to 999 and no others,
/// and the status code that it makes holds the number it was given.
pub assume_specification[ StatusCode::from_u16 ](src: u16) -> (made: Result<
    StatusCode,
    InvalidStatusCode,
>)
    ensures
        made is Ok <==> 100 <= src <= 999,
        made is Ok ==> status_number(made->Ok_0) == src,
;

/// The low sixteen bits of an integer, read as an unsigned number.
pub open spec fn narrowed(n: int) -> u16 {
    (n % 0x1_0000) as u16
}

/// What decoding a node as a status code yields: the number of the status
/// code, or the reason for which the node is refused.
pub open spec fn decoded(node: NodeView) -> Result<u16, ErrorView> {
    match node {
        NodeView::U16(n) => validated(n),
        NodeView::U64(n) => validated(narrowed(n as int)),
        NodeView::I64(n) => validated(narrowed(n as int)),
        _ => Err(ErrorView::UnexpectedShape),
    }
}

/// A narrowed number is a status code when it lies between 100 and 999.
pub open spec fn validated(number: u16) -> Result<u16, ErrorView> {
    if 100 <= number <= 999 {
        Ok(number)
    } else {
        Err(ErrorView::InvalidValue(RejectedView::Unsigned(number as u64)))
    }
}

/// Boundary: of the numbers of sixteen bits, decoding accepts those from 100
/// to 999 and refuses all others, each with the error that carries it.
pub proof fn lemma_accepted_range(number: u16)
    ensures
        decoded(NodeView::U16(number)) is Ok <==> 100 <= number <= 999,
        decoded(NodeView::U16(number)) is Ok ==> decoded(NodeView::U16(number)) == Ok::<
            u16,
            ErrorView,
        >(number),
        decoded(NodeView::U16(number)) is Err ==> decoded(NodeView::U16(number)) == Err::<
            u16,
            ErrorView,
        >(ErrorView::InvalidValue(RejectedView::Unsigned(number as u64))),
        decoded(NodeView::U64(number as u64)) == decoded(NodeView::U16(number)),
        decoded(NodeView::I64(number as i64)) == decoded(NodeView::U16(number)),
{
}

/// Encodes a status code as its number, an unsigned integer of sixteen bits.
/// Decoding the node gives the number back.
pub fn serialize(status: &StatusCode) -> (node: Node)
    ensures
        node@ == NodeView::U16(status_number(*status)),
        decoded(node@) == Ok::<u16, ErrorView>(status_number(*status)),
{
    Node::U16(status.as_u16())
}

/// Narrows an unsigned integer to its low sixteen bits.
pub fn narrow_unsigned(n: u64) -> (low: u16)
    ensures
        low == narrowed(n as int),
{
    (n % 0x1_0000) as u16
}

/// Narrows a signed integer to its low sixteen bits.
pub fn narrow_signed(n: i64) -> (low: u16)
    ensures
        low == narrowed(n as int),
{
    let low = #[verifier::truncate] (n as u16);
    proof {
        if n >= 0 {
            let m = n as u64;
            assert(#[verifier::truncate] (n as u16) == (m % 0x1_0000) as u16) by (bit_vector)
                requires
                    n >= 0,
                    m == n as u64,
            ;
        } else {
            let m = (-(n + 1)) as u64;
            assert(#[verifier::truncate] (n as u16) == (0xffff - m % 0x1_0000) as u16)
                by (bit_vector)
                requires
                    n < 0,
                    m == (-(n + 1)) as u64,
            ;
        }
    }
    low
}

/// Decodes a status code from an integer node of any width and either sign:
/// the integer is narrowed to sixteen bits and must then lie between 100 and
/// 999.
pub fn deserialize(node: &Node) -> (result: Result<StatusCode, Error>)
    ensures
        match decoded(node@) {
            Ok(number) => result is Ok && status_number(result->Ok_0) == number,
            Err(error) => result is Err && result->Err_0@ == error,
        },
{
    let number = match node {
        Node::U16(n) => *n,
        Node::U64(n) => narrow_unsigned(*n),
        Node::I64(n) => narrow_signed(*n),
        _ => { return Err(Error::UnexpectedShape); },
    };
    match StatusCode::from_u16(number) {
        Ok(status) => Ok(status),
        Err(_) => Err(Error::invalid_unsigned(number as u64)),
    }
}

} // verus!
