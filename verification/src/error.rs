//! The errors of decoding and their mathematical view.

use vstd::prelude::*;

verus! {

/// The input that a decoder refused, kept so that a caller can describe it.
#[derive(Debug, PartialEq, Eq)]
pub enum Rejected {
    Unsigned(u64),
    Str(String),
    Bytes(Vec<u8>),
}

/// The mathematical value of a [`Rejected`].
pub enum RejectedView {
    Unsigned(u64),
    Str(Seq<char>),
    Bytes(Seq<u8>),
}

impl View for Rejected {
    type V = RejectedView;

    open spec fn view(&self) -> RejectedView {
        match self {
            Rejected::Unsigned(n) => RejectedView::Unsigned(*n),
            Rejected::Str(text) => RejectedView::Str(text@),
            Rejected::Bytes(bytes) => RejectedView::Bytes(bytes@),
        }
    }
}

/// Why a node could not be decoded.
#[derive(Debug, PartialEq, Eq)]
pub enum Error {
    /// The node is not of the kind that the decoder expects.
    UnexpectedShape,
    /// The node has the right kind, but the target type refuses its content.
    InvalidValue(Rejected),
    /// The header collection refused to grow any further, which only a
    /// collection of thousands of names does.
    CapacityExceeded,
}

/// The mathematical value of an [`Error`].
pub enum ErrorView {
    UnexpectedShape,
    InvalidValue(RejectedView),
    CapacityExceeded,
}

impl View for Error {
    type V = ErrorView;

    open spec fn view(&self) -> ErrorView {
        match self {
            Error::UnexpectedShape => ErrorView::UnexpectedShape,
            Error::InvalidValue(rejected) => ErrorView::InvalidValue(rejected@),
            Error::CapacityExceeded => ErrorView::CapacityExceeded,
        }
    }
}

impl Error {
    /// The error for a number that the target type refuses.
    pub fn invalid_unsigned(number: u64) -> (error: Error)
        ensures
            error@ == ErrorView::InvalidValue(RejectedView::Unsigned(number)),
    {
        Error::InvalidValue(Rejected::Unsigned(number))
    }

    /// The error for a text that the target type refuses.
    pub fn invalid_str(text: &str) -> (error: Error)
        ensures
            error@ == ErrorView::InvalidValue(RejectedView::Str(text@)),
    {
        Error::InvalidValue(Rejected::Str(text.to_owned()))
    }

    /// The error for a byte array that the target type refuses.
    pub fn invalid_bytes(bytes: &[u8]) -> (error: Error)
        ensures
            error@ == ErrorView::InvalidValue(RejectedView::Bytes(bytes@)),
    {
        Error::InvalidValue(Rejected::Bytes(vstd::slice::slice_to_vec(bytes)))
    }
}

/// Keeps what a parser accepted, and turns its refusal of a text into the
/// error that carries the text.
pub fn accepted<T, E>(parsed: Result<T, E>, text: &str) -> (result: Result<T, Error>)
    ensures
        match parsed {
            Ok(value) => result == Ok::<T, Error>(value),
            Err(_) => result is Err && result->Err_0@ == ErrorView::InvalidValue(
                RejectedView::Str(text@),
            ),
        },
{
    match parsed {
        Ok(value) => Ok(value),
        Err(_) => Err(Error::invalid_str(text)),
    }
}

} // verus!
