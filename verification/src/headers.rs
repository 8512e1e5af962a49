//! The header types of the `http` crate as this crate sees them: what a
//! name, a value and a collection hold, which texts and bytes they accept,
//! and how a collection changes when a value is appended or inserted.

use crate::token::is_token;
use http::header::{
    HeaderName, HeaderValue, InvalidHeaderName, InvalidHeaderValue, MaxSizeReached, ToStrError,
};
use http::HeaderMap;
use vstd::prelude::*;
use vstd::string::StringSliceAdditionalSpecFns;

verus! {

/// `http::header::HeaderName`, carried as an opaque value.
#[verifier::external_type_specification]
#[verifier::external_body]
pub struct ExHeaderName(http::header::HeaderName);

/// `http::header::InvalidHeaderName`, carried as an opaque value.
#[verifier::external_type_specification]
#[verifier::external_body]
pub struct ExInvalidHeaderName(http::header::InvalidHeaderName);

/// `http::header::HeaderValue`, carried as an opaque value.
#[verifier::external_type_specification]
#[verifier::external_body]
pub struct ExHeaderValue(http::header::HeaderValue);

/// `http::header::InvalidHeaderValue`, carried as an opaque value.
#[verifier::external_type_specification]
#[verifier::external_body]
pub struct ExInvalidHeaderValue(http::header::InvalidHeaderValue);

/// `http::header::ToStrError`, carried as an opaque value.
#[verifier::external_type_specification]
#[verifier::external_body]
pub struct ExToStrError(http::header::ToStrError);

/// `http::header::MaxSizeReached`, carried as an opaque value.
#[verifier::external_type_specification]
#[verifier::external_body]
pub struct ExMaxSizeReached(http::header::MaxSizeReached);

/// `http::HeaderMap`, carried as an opaque value.
#[verifier::external_type_specification]
#[verifier::external_body]
#[verifier::reject_recursive_types(T)]
pub struct ExHeaderMap<T>(http::HeaderMap<T>);

/// The longest header name that is accepted, in characters.
pub const MAX_NAME_LEN: usize = 65535;

/// The fewest names that a collection holds when it refuses to grow.
///
/// `HeaderMap` refuses a value only where its table of `1 << 15` slots would
/// have to double: with such a table, and either a fifth of it in use or
/// three quarters of it.
pub const REFUSAL_FLOOR: usize = 6554;

/// The text of a header name: what `HeaderName::as_str` returns.
pub uninterp spec fn name_text(name: HeaderName) -> Seq<char>;

/// The bytes of a header value: what `HeaderValue::as_bytes` returns.
pub uninterp spec fn value_bytes(value: HeaderValue) -> Seq<u8>;

/// What a header collection holds: its distinct names in the order in which
/// `HeaderMap::keys` yields them, each with all its values in the order in
/// which `HeaderMap::get_all` yields them.
pub uninterp spec fn header_groups(headers: HeaderMap<HeaderValue>) -> Seq<
    (Seq<char>, Seq<Seq<u8>>),
>;

/// A text is accepted as a header name when it is a token of at most
/// `MAX_NAME_LEN` characters.
pub open spec fn is_header_name(text: Seq<char>) -> bool {
    is_token(text) && text.len() <= MAX_NAME_LEN
}

/// An upper-case ASCII letter becomes its lower-case form; any other
/// character stays.
pub open spec fn lowered_char(c: char) -> char {
    if 'A' <= c <= 'Z' {
        ((c as u8) + 32) as char
    } else {
        c
    }
}

/// A text with its upper-case ASCII letters lowered: the form in which a
/// header name is stored.
pub open spec fn lowered(text: Seq<char>) -> Seq<char> {
    Seq::new(text.len(), |i: int| lowered_char(text[i]))
}

/// The bytes that a header value may hold: everything from the space on but
/// DEL, and the horizontal tab.
pub open spec fn is_value_byte(b: u8) -> bool {
    (b >= 32 && b != 127) || b == 9
}

/// A byte string is a legal header value when each of its bytes is.
pub open spec fn is_legal_value(bytes: Seq<u8>) -> bool {
    forall|i: int| 0 <= i < bytes.len() ==> is_value_byte(#[trigger] bytes[i])
}

/// The bytes that a header value shows as text: the visible ASCII
/// characters, the space and the horizontal tab.
pub open spec fn is_text_byte(b: u8) -> bool {
    (32 <= b < 127) || b == 9
}

/// A header value can be shown as text when each of its bytes can.
pub open spec fn is_text_value(bytes: Seq<u8>) -> bool {
    forall|i: int| 0 <= i < bytes.len() ==> is_text_byte(#[trigger] bytes[i])
}

/// ASCII bytes read as characters, one for one.
pub open spec fn ascii_text(bytes: Seq<u8>) -> Seq<char> {
    Seq::new(bytes.len(), |i: int| bytes[i] as char)
}

/// Where a name stands among the groups: the index of the first group that
/// bears it, or the number of groups if none does.
pub open spec fn position(groups: Seq<(Seq<char>, Seq<Seq<u8>>)>, name: Seq<char>) -> int
    decreases groups.len(),
{
    if groups.len() == 0 {
        0
    } else if groups[0].0 == name {
        0
    } else {
        1 + position(groups.drop_first(), name)
    }
}

/// The groups after one more value was appended under a name: the value
/// joins the group of that name, or opens a new last group.
pub open spec fn appended(
    groups: Seq<(Seq<char>, Seq<Seq<u8>>)>,
    name: Seq<char>,
    value: Seq<u8>,
) -> Seq<(Seq<char>, Seq<Seq<u8>>)> {
    let at = position(groups, name);
    if at < groups.len() {
        groups.update(at, (name, groups[at].1.push(value)))
    } else {
        groups.push((name, seq![value]))
    }
}

/// The groups after a value was inserted under a name: it becomes the only
/// value of the group of that name, or opens a new last group.
pub open spec fn replaced(
    groups: Seq<(Seq<char>, Seq<Seq<u8>>)>,
    name: Seq<char>,
    value: Seq<u8>,
) -> Seq<(Seq<char>, Seq<Seq<u8>>)> {
    let at = position(groups, name);
    if at < groups.len() {
        groups.update(at, (name, seq![value]))
    } else {
        groups.push((name, seq![value]))
    }
}

/// A name as a header collection stores it: a header name without
/// upper-case letters.
pub open spec fn is_stored_name(name: Seq<char>) -> bool {
    is_header_name(name) && lowered(name) == name
}

/// What holds of the groups of every header collection: each name is a
/// stored name and occurs once, and each name has at least one value, all of
/// them legal.
pub open spec fn well_formed(groups: Seq<(Seq<char>, Seq<Seq<u8>>)>) -> bool {
    &&& forall|i: int| 0 <= i < groups.len() ==> is_stored_name((#[trigger] groups[i]).0)
    &&& forall|i: int| 0 <= i < groups.len() ==> (#[trigger] groups[i]).1.len() >= 1
    &&& forall|i: int, j: int|
        0 <= i < groups.len() && 0 <= j < groups[i].1.len() ==> is_legal_value(
            #[trigger] groups[i].1[j],
        )
    &&& forall|i: int, j: int|
        0 <= i < j < groups.len() ==> (#[trigger] groups[i]).0 != (#[trigger] groups[j]).0
}

/// Every value of every group can be shown as text.
pub open spec fn all_shown(groups: Seq<(Seq<char>, Seq<Seq<u8>>)>) -> bool {
    forall|i: int, j: int|
        0 <= i < groups.len() && 0 <= j < groups[i].1.len() ==> is_text_value(
            #[trigger] groups[i].1[j],
        )
}

/// The bytes of each value of a list.
pub open spec fn bytes_of(values: Seq<&HeaderValue>) -> Seq<Seq<u8>> {
    Seq::new(values.len(), |j: int| value_bytes(*values[j]))
}

/// The groups that a list of names with their values stands for.
pub open spec fn groups_of(entries: Seq<(&HeaderName, Vec<&HeaderValue>)>) -> Seq<
    (Seq<char>, Seq<Seq<u8>>),
> {
    Seq::new(entries.len(), |i: int| (name_text(*entries[i].0), bytes_of(entries[i].1@)))
}

/// `HeaderName::as_str` reads the text that the name holds.
pub assume_specification<'a>[ HeaderName::as_str ](name: &'a HeaderName) -> (text: &'a str)
    ensures
        text@ == name_text(*name),
;

/// `HeaderName::from_bytes`, given the bytes of a text, accepts the tokens of
/// at most `MAX_NAME_LEN` characters and no other text, and the name that it
/// makes holds the text with its upper-case letters lowered.
#[verifier::external_body]
pub(crate) fn parse_header_name(key: &str) -> (parsed: Result<HeaderName, InvalidHeaderName>)
    ensures
        parsed is Ok <==> is_header_name(key@),
        parsed is Ok ==> name_text(parsed->Ok_0) == lowered(key@),
{
    HeaderName::from_bytes(key.as_bytes())
}

/// `HeaderValue::as_bytes` reads the bytes that the value holds.
pub assume_specification<'a>[ HeaderValue::as_bytes ](value: &'a HeaderValue) -> (bytes: &'a [u8])
    ensures
        bytes@ == value_bytes(*value),
;

/// `HeaderValue::to_str` succeeds when every byte of the value can be shown
/// as text, and then yields those bytes as characters.
pub assume_specification<'a>[ HeaderValue::to_str ](value: &'a HeaderValue) -> (shown: Result<
    &'a str,
    ToStrError,
>)
    ensures
        shown is Ok <==> is_text_value(value_bytes(*value)),
        shown is Ok ==> shown->Ok_0@ == ascii_text(value_bytes(*value)),
;

/// `HeaderValue::from_bytes` accepts the legal byte strings and no others,
/// and the value that it makes holds the bytes it was given.
pub assume_specification[ HeaderValue::from_bytes ](src: &[u8]) -> (made: Result<
    HeaderValue,
    InvalidHeaderValue,
>)
    ensures
        made is Ok <==> is_legal_value(src@),
        made is Ok ==> value_bytes(made->Ok_0) == src@,
;

/// `HeaderValue::from_str` accepts a text when its UTF-8 bytes are a legal
/// byte string, and the value that it makes holds those bytes.
pub assume_specification[ HeaderValue::from_str ](src: &str) -> (made: Result<
    HeaderValue,
    InvalidHeaderValue,
>)
    ensures
        made is Ok <==> is_legal_value(src.spec_bytes()),
        made is Ok ==> value_bytes(made->Ok_0) == src.spec_bytes(),
;

/// `HeaderMap::new` makes a collection that holds nothing.
#[verifier::external_body]
pub(crate) fn new_headers() -> (headers: HeaderMap<HeaderValue>)
    ensures
        header_groups(headers) == Seq::<(Seq<char>, Seq<Seq<u8>>)>::empty(),
{
    HeaderMap::new()
}

/// `HeaderMap::try_with_capacity` makes a collection that holds nothing, with
/// room set aside for about `capacity` names, or refuses a capacity that is
/// too large.
#[verifier::external_body]
pub(crate) fn headers_with_capacity(capacity: usize) -> (made: Result<
    HeaderMap<HeaderValue>,
    MaxSizeReached,
>)
    ensures
        made is Ok ==> header_groups(made->Ok_0) == Seq::<(Seq<char>, Seq<Seq<u8>>)>::empty(),
{
    HeaderMap::try_with_capacity(capacity)
}

/// `HeaderMap::keys` and `HeaderMap::get_all`: the names of the collection
/// in order, each with all its values in order. This is what `header_groups`
/// names.
#[verifier::external_body]
pub(crate) fn header_entries<'a>(headers: &'a HeaderMap<HeaderValue>) -> (entries: Vec<
    (&'a HeaderName, Vec<&'a HeaderValue>),
>)
    ensures
        groups_of(entries@) == header_groups(*headers),
{
    headers.keys().map(|name| (name, headers.get_all(name).iter().collect())).collect()
}

/// `HeaderMap::try_append` adds a value under a name, after the values that
/// the name already has, and tells whether the name was there before; a new
/// name comes last. Where the collection refuses to grow, it stays as it was.
///
/// It refuses only through `try_reserve_one`, `try_grow` and
/// `try_insert_entry`: when its table has `1 << 15` slots and cannot double,
/// which takes `entries.len() * 5 >= 1 << 15` after too many collisions, or
/// `entries.len()` equal to three quarters of the table, or `1 << 15`
/// entries. In each case it holds at least `REFUSAL_FLOOR` names already.
#[verifier::external_body]
pub(crate) fn try_append(
    headers: &mut HeaderMap<HeaderValue>,
    name: &HeaderName,
    value: HeaderValue,
) -> (outcome: Result<bool, MaxSizeReached>)
    ensures
        match outcome {
            Ok(present) => {
                &&& header_groups(*final(headers)) == appended(
                    header_groups(*old(headers)),
                    name_text(*name),
                    value_bytes(value),
                )
                &&& present <==> position(header_groups(*old(headers)), name_text(*name))
                    < header_groups(*old(headers)).len()
            },
            Err(_) => {
                &&& header_groups(*final(headers)) == header_groups(*old(headers))
                &&& header_groups(*old(headers)).len() >= REFUSAL_FLOOR
            },
        },
{
    headers.try_append(name, value)
}

/// `HeaderMap::try_insert` puts a value under a name in place of all the
/// values that the name had, and hands back the first of them; a new name
/// comes last. Where the collection refuses to grow, it stays as it was; as
/// with `try_append`, it then holds at least `REFUSAL_FLOOR` names already.
#[verifier::external_body]
pub(crate) fn try_insert(
    headers: &mut HeaderMap<HeaderValue>,
    name: HeaderName,
    value: HeaderValue,
) -> (outcome: Result<Option<HeaderValue>, MaxSizeReached>)
    ensures
        match outcome {
            Ok(previous) => {
                let before = header_groups(*old(headers));
                let at = position(before, name_text(name));
                &&& header_groups(*final(headers)) == replaced(
                    before,
                    name_text(name),
                    value_bytes(value),
                )
                &&& previous is Some <==> at < before.len()
                &&& previous is Some && before[at].1.len() > 0 ==> value_bytes(previous->Some_0)
                    == before[at].1[0]
            },
            Err(_) => {
                &&& header_groups(*final(headers)) == header_groups(*old(headers))
                &&& header_groups(*old(headers)).len() >= REFUSAL_FLOOR
            },
        },
{
    headers.try_insert(name, value)
}

} // verus!
