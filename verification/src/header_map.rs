//! The adapter for `http::HeaderMap`.

use crate::decoding::{
    blobs_in, decoded, decoded_entries, entry_offers, is_refusal, lemma_blobs_error_sticks,
    lemma_entries_error_sticks, lemma_texts_error_sticks, offers, shape_of, texts_in, with_blobs,
    with_entry, with_one, with_texts, all_bytes, all_str, OneOrMoreView,
};
use crate::encoding::{
    encoded, encoded_entries, encoded_values, lemma_shown_values_push, raw_values, shown_values,
};
use crate::error::{Error, ErrorView, RejectedView};
use crate::headers::{
    bytes_of, groups_of, header_entries, header_groups, headers_with_capacity, is_legal_value,
    name_text, new_headers, parse_header_name, position, try_append, try_insert, value_bytes,
    well_formed, REFUSAL_FLOOR,
};
use crate::validity::{
    lemma_appended_count, lemma_decoded_is_well_formed, lemma_replaced_count,
};
use crate::node::{entry_views_of, views_of, Node, NodeView};
use http::header::{HeaderName, HeaderValue, MaxSizeReached};
use http::HeaderMap;
use vstd::prelude::*;
use vstd::string::StringSliceAdditionalSpecFns;
use vstd::utf8::encode_utf8;

verus! {

/// The three shapes in which the values of one name may arrive: a single
/// text, a sequence of texts, or a sequence of byte arrays.
pub enum OneOrMore<'a> {
    One(&'a str),
    Strings(Vec<&'a str>),
    Bytes(Vec<&'a [u8]>),
}

impl<'a> View for OneOrMore<'a> {
    type V = OneOrMoreView;

    open spec fn view(&self) -> OneOrMoreView {
        match self {
            OneOrMore::One(text) => OneOrMoreView::One(text@),
            OneOrMore::Strings(texts) => OneOrMoreView::Strings(
                Seq::new(texts@.len(), |i: int| texts@[i]@),
            ),
            OneOrMore::Bytes(items) => OneOrMoreView::Bytes(
                Seq::new(items@.len(), |i: int| items@[i]@),
            ),
        }
    }
}

/// Encodes the values of one name for a human-readable format.
fn encode_shown(values: &Vec<&HeaderValue>) -> (node: Node)
    ensures
        node@ == encoded_values(bytes_of(values@), true),
{
    let ghost all = bytes_of(values@);
    if values.len() == 1 {
        match values[0].to_str() {
            Ok(text) => {
                return Node::Str(text.to_owned());
            },
            Err(_) => {},
        }
    }
    let mut items: Vec<Node> = Vec::new();
    let mut i: usize = 0;
    while i < values.len()
        invariant
            i <= values.len(),
            all == bytes_of(values@),
            views_of(items@) == shown_values(all.take(i as int)),
        decreases values.len() - i,
    {
        proof {
            lemma_shown_values_push(all.take(i as int), all[i as int]);
            assert(all.take(i as int + 1) =~= all.take(i as int).push(all[i as int]));
        }
        match values[i].to_str() {
            Ok(text) => {
                let item = Node::Str(text.to_owned());
                let ghost before = items@;
                items.push(item);
                assert(views_of(items@) =~= views_of(before).push(item@));
            },
            Err(_) => {},
        }
        i += 1;
    }
    proof {
        assert(all.take(values.len() as int) =~= all);
    }
    Node::sequence(items)
}

/// Encodes the values of one name for a compact format.
fn encode_raw(values: &Vec<&HeaderValue>) -> (node: Node)
    ensures
        node@ == encoded_values(bytes_of(values@), false),
{
    let ghost all = bytes_of(values@);
    let mut items: Vec<Node> = Vec::with_capacity(values.len());
    let mut i: usize = 0;
    while i < values.len()
        invariant
            i <= values.len(),
            all == bytes_of(values@),
            views_of(items@) == raw_values(all.take(i as int)),
        decreases values.len() - i,
    {
        let item = Node::Bytes(vstd::slice::slice_to_vec(values[i].as_bytes()));
        let ghost before = items@;
        items.push(item);
        proof {
            assert(views_of(items@) =~= views_of(before).push(item@));
            assert(all.take(i as int + 1) =~= all.take(i as int).push(all[i as int]));
            assert(raw_values(all.take(i as int + 1)) =~= raw_values(all.take(i as int)).push(
                item@,
            ));
        }
        i += 1;
    }
    proof {
        assert(all.take(values.len() as int) =~= all);
    }
    Node::sequence(items)
}

/// Encodes the values of one name.
///
/// A compact format gets a sequence of byte arrays, whatever their number.
/// A human-readable format gets a bare text for a single value that can be
/// shown as text, and else a sequence of the values that can; a value that
/// cannot is left out, which is no error.
pub fn encode_values(values: &Vec<&HeaderValue>, is_human_readable: bool) -> (node: Node)
    ensures
        node@ == encoded_values(bytes_of(values@), is_human_readable),
{
    if is_human_readable {
        encode_shown(values)
    } else {
        encode_raw(values)
    }
}

/// Encodes a header collection as a mapping with one entry for each distinct
/// name, in the order in which the collection yields its names.
///
/// For a human-readable format the values of a name become a bare text where
/// there is one value and it can be shown as text, and else a sequence of
/// the values that can be shown as text. For a compact format they become a
/// sequence of byte arrays, whatever their number.
pub fn serialize(headers: &HeaderMap<HeaderValue>, is_human_readable: bool) -> (node: Node)
    ensures
        node@ == encoded(header_groups(*headers), is_human_readable),
{
    let listed = header_entries(headers);
    let ghost groups = header_groups(*headers);
    let mut entries: Vec<(String, Node)> = Vec::with_capacity(listed.len());
    let mut i: usize = 0;
    while i < listed.len()
        invariant
            i <= listed.len(),
            groups_of(listed@) == groups,
            entry_views_of(entries@) == encoded_entries(groups.take(i as int), is_human_readable),
        decreases listed.len() - i,
    {
        let name: &HeaderName = listed[i].0;
        let values: &Vec<&HeaderValue> = &listed[i].1;
        let key = name.as_str().to_owned();
        let value = encode_values(values, is_human_readable);
        let ghost before = entries@;
        let ghost entry = (key@, value@);
        entries.push((key, value));
        proof {
            assert(groups[i as int] == groups_of(listed@)[i as int]);
            assert(entry_views_of(entries@) =~= entry_views_of(before).push(entry));
            assert(groups.take(i as int + 1) =~= groups.take(i as int).push(groups[i as int]));
            assert(encoded_entries(groups.take(i as int + 1), is_human_readable)
                =~= encoded_entries(groups.take(i as int), is_human_readable).push(entry));
        }
        i += 1;
    }
    proof {
        assert(groups.take(listed.len() as int) =~= groups);
    }
    Node::mapping(entries)
}

/// Reads the items of a sequence as texts, if each of them is one.
fn texts_of<'a>(items: &'a Vec<Node>) -> (texts: Option<Vec<&'a str>>)
    ensures
        texts is Some <==> all_str(views_of(items@)),
        texts is Some ==> OneOrMore::Strings(texts->Some_0)@ == OneOrMoreView::Strings(
            texts_in(views_of(items@)),
        ),
{
    let mut texts: Vec<&'a str> = Vec::with_capacity(items.len());
    let mut i: usize = 0;
    while i < items.len()
        invariant
            i <= items.len(),
            texts@.len() == i,
            forall|j: int| 0 <= j < i ==> (#[trigger] views_of(items@)[j]) is Str,
            forall|j: int| 0 <= j < i ==> (#[trigger] texts@[j])@ == views_of(items@)[j]->Str_0,
        decreases items.len() - i,
    {
        match &items[i] {
            Node::Str(text) => {
                texts.push(text.as_str());
            },
            _ => {
                assert(!(views_of(items@)[i as int] is Str));
                return None;
            },
        }
        i += 1;
    }
    proof {
        assert(OneOrMore::Strings(texts)@->Strings_0 =~= texts_in(views_of(items@)));
    }
    Some(texts)
}

/// Reads the items of a sequence as byte arrays, if each of them is one.
fn blobs_of<'a>(items: &'a Vec<Node>) -> (blobs: Option<Vec<&'a [u8]>>)
    ensures
        blobs is Some <==> all_bytes(views_of(items@)),
        blobs is Some ==> OneOrMore::Bytes(blobs->Some_0)@ == OneOrMoreView::Bytes(
            blobs_in(views_of(items@)),
        ),
{
    let mut blobs: Vec<&'a [u8]> = Vec::with_capacity(items.len());
    let mut i: usize = 0;
    while i < items.len()
        invariant
            i <= items.len(),
            blobs@.len() == i,
            forall|j: int| 0 <= j < i ==> (#[trigger] views_of(items@)[j]) is Bytes,
            forall|j: int| 0 <= j < i ==> (#[trigger] blobs@[j])@ == views_of(items@)[j]->Bytes_0,
        decreases items.len() - i,
    {
        match &items[i] {
            Node::Bytes(bytes) => {
                blobs.push(bytes.as_slice());
            },
            _ => {
                assert(!(views_of(items@)[i as int] is Bytes));
                return None;
            },
        }
        i += 1;
    }
    proof {
        assert(OneOrMore::Bytes(blobs)@->Bytes_0 =~= blobs_in(views_of(items@)));
    }
    Some(blobs)
}

/// Tells in which of the accepted shapes the values of one name arrive, if
/// in any.
pub fn classify<'a>(node: &'a Node, is_human_readable: bool) -> (shape: Option<OneOrMore<'a>>)
    ensures
        match shape_of(node@, is_human_readable) {
            Some(expected) => shape is Some && shape->Some_0@ == expected,
            None => shape is None,
        },
{
    match node {
        Node::Str(text) => {
            if is_human_readable {
                Some(OneOrMore::One(text.as_str()))
            } else {
                None
            }
        },
        Node::Sequence(items) => {
            proof {
                Node::lemma_sequence_view(*items);
            }
            if is_human_readable {
                match texts_of(items) {
                    Some(texts) => {
                        return Some(OneOrMore::Strings(texts));
                    },
                    None => {},
                }
            }
            match blobs_of(items) {
                Some(blobs) => Some(OneOrMore::Bytes(blobs)),
                None => None,
            }
        },
        _ => None,
    }
}

/// Turns the answer of the collection into a result of this crate: where the
/// collection refused to grow, the error says so.
pub fn admitted<T>(outcome: Result<T, MaxSizeReached>) -> (result: Result<T, Error>)
    ensures
        match outcome {
            Ok(answer) => result == Ok::<T, Error>(answer),
            Err(_) => result matches Err(error) && error@ == ErrorView::CapacityExceeded,
        },
{
    match outcome {
        Ok(answer) => Ok(answer),
        Err(_) => Err(Error::CapacityExceeded),
    }
}

/// Inserts a single text under a name, in place of whatever the name had.
fn insert_one(
    headers: &mut HeaderMap<HeaderValue>,
    name: HeaderName,
    text: &str,
) -> (result: Result<(), Error>)
    ensures
        is_refusal(result) ==> is_legal_value(encode_utf8(text@)),
        is_refusal(result) ==> header_groups(*old(headers)).len() >= REFUSAL_FLOOR,
        result is Ok ==> header_groups(*final(headers)).len() <= header_groups(
            *old(headers),
        ).len() + 1,
        !is_refusal(result) ==> match with_one(
            header_groups(*old(headers)),
            name_text(name),
            text@,
        ) {
            Ok(groups) => result is Ok && header_groups(*final(headers)) == groups,
            Err(error) => result is Err && result->Err_0@ == error,
        },
{
    match HeaderValue::from_str(text) {
        Ok(value) => {
            proof {
                lemma_replaced_count(
                    header_groups(*old(headers)),
                    name_text(name),
                    encode_utf8(text@),
                );
            }
            match admitted(try_insert(headers, name, value)) {
                Ok(_) => Ok(()),
                Err(error) => Err(error),
            }
        },
        Err(_) => Err(Error::invalid_str(text)),
    }
}

/// Appends each text of a sequence under a name, in order.
fn append_texts(
    headers: &mut HeaderMap<HeaderValue>,
    name: &HeaderName,
    texts: &Vec<&str>,
) -> (result: Result<(), Error>)
    ensures
        is_refusal(result) ==> texts@.len() > 0 && is_legal_value(encode_utf8(texts@[0]@)),
        is_refusal(result) ==> header_groups(*old(headers)).len() + 1 >= REFUSAL_FLOOR,
        result is Ok ==> header_groups(*final(headers)).len() <= header_groups(
            *old(headers),
        ).len() + 1,
        !is_refusal(result) ==> match with_texts(
            header_groups(*old(headers)),
            name_text(*name),
            OneOrMore::Strings(*texts)@->Strings_0,
        ) {
            Ok(groups) => result is Ok && header_groups(*final(headers)) == groups,
            Err(error) => result is Err && result->Err_0@ == error,
        },
{
    let ghost start = header_groups(*old(headers));
    let ghost all = OneOrMore::Strings(*texts)@->Strings_0;
    let mut i: usize = 0;
    while i < texts.len()
        invariant
            i <= texts.len(),
            all == OneOrMore::Strings(*texts)@->Strings_0,
            start == header_groups(*old(headers)),
            i > 0 ==> is_legal_value(encode_utf8(texts@[0]@)),
            header_groups(*headers).len() <= start.len() + 1,
            i == 0 ==> header_groups(*headers) == start,
            i > 0 ==> position(header_groups(*headers), name_text(*name)) < header_groups(
                *headers,
            ).len(),
            with_texts(start, name_text(*name), all.take(i as int)) == Ok::<_, ErrorView>(
                header_groups(*headers),
            ),
        decreases texts.len() - i,
    {
        proof {
            assert(all.take(i as int + 1).drop_last() =~= all.take(i as int));
            assert(all.take(i as int + 1).last() == texts@[i as int]@);
        }
        match HeaderValue::from_str(texts[i]) {
            Ok(value) => {
                proof {
                    lemma_appended_count(
                        header_groups(*headers),
                        name_text(*name),
                        value_bytes(value),
                    );
                }
                match admitted(try_append(headers, name, value)) {
                    Ok(_) => {},
                    Err(error) => {
                        return Err(error);
                    },
                }
            },
            Err(_) => {
                proof {
                    assert(texts@[i as int].spec_bytes() == encode_utf8(texts@[i as int]@));
                    assert(with_texts(start, name_text(*name), all.take(i as int + 1)) == Err::<
                        Seq<(Seq<char>, Seq<Seq<u8>>)>,
                        ErrorView,
                    >(ErrorView::InvalidValue(RejectedView::Str(texts@[i as int]@))));
                    lemma_texts_error_sticks(start, name_text(*name), all, i as int + 1);
                }
                return Err(Error::invalid_str(texts[i]));
            },
        }
        i += 1;
    }
    proof {
        assert(all.take(texts.len() as int) =~= all);
    }
    Ok(())
}

/// Appends each byte array of a sequence under a name, in order.
fn append_blobs(
    headers: &mut HeaderMap<HeaderValue>,
    name: &HeaderName,
    blobs: &Vec<&[u8]>,
) -> (result: Result<(), Error>)
    ensures
        is_refusal(result) ==> blobs@.len() > 0 && is_legal_value(blobs@[0]@),
        is_refusal(result) ==> header_groups(*old(headers)).len() + 1 >= REFUSAL_FLOOR,
        result is Ok ==> header_groups(*final(headers)).len() <= header_groups(
            *old(headers),
        ).len() + 1,
        !is_refusal(result) ==> match with_blobs(
            header_groups(*old(headers)),
            name_text(*name),
            OneOrMore::Bytes(*blobs)@->Bytes_0,
        ) {
            Ok(groups) => result is Ok && header_groups(*final(headers)) == groups,
            Err(error) => result is Err && result->Err_0@ == error,
        },
{
    let ghost start = header_groups(*old(headers));
    let ghost all = OneOrMore::Bytes(*blobs)@->Bytes_0;
    let mut i: usize = 0;
    while i < blobs.len()
        invariant
            i <= blobs.len(),
            all == OneOrMore::Bytes(*blobs)@->Bytes_0,
            start == header_groups(*old(headers)),
            i > 0 ==> is_legal_value(blobs@[0]@),
            header_groups(*headers).len() <= start.len() + 1,
            i == 0 ==> header_groups(*headers) == start,
            i > 0 ==> position(header_groups(*headers), name_text(*name)) < header_groups(
                *headers,
            ).len(),
            with_blobs(start, name_text(*name), all.take(i as int)) == Ok::<_, ErrorView>(
                header_groups(*headers),
            ),
        decreases blobs.len() - i,
    {
        proof {
            assert(all.take(i as int + 1).drop_last() =~= all.take(i as int));
            assert(all.take(i as int + 1).last() == blobs@[i as int]@);
        }
        match HeaderValue::from_bytes(blobs[i]) {
            Ok(value) => {
                proof {
                    lemma_appended_count(
                        header_groups(*headers),
                        name_text(*name),
                        value_bytes(value),
                    );
                }
                match admitted(try_append(headers, name, value)) {
                    Ok(_) => {},
                    Err(error) => {
                        return Err(error);
                    },
                }
            },
            Err(_) => {
                proof {
                    assert(with_blobs(start, name_text(*name), all.take(i as int + 1)) == Err::<
                        Seq<(Seq<char>, Seq<Seq<u8>>)>,
                        ErrorView,
                    >(ErrorView::InvalidValue(RejectedView::Bytes(blobs@[i as int]@))));
                    lemma_blobs_error_sticks(start, name_text(*name), all, i as int + 1);
                }
                return Err(Error::invalid_bytes(blobs[i]));
            },
        }
        i += 1;
    }
    proof {
        assert(all.take(blobs.len() as int) =~= all);
    }
    Ok(())
}

/// Makes an empty collection with room set aside for about `hint` names. A
/// hint that the collection refuses as too large is passed over.
fn with_capacity_hint(hint: usize) -> (headers: HeaderMap<HeaderValue>)
    ensures
        header_groups(headers) == Seq::<(Seq<char>, Seq<Seq<u8>>)>::empty(),
{
    match headers_with_capacity(hint) {
        Ok(headers) => headers,
        Err(_) => new_headers(),
    }
}

/// Takes one entry of a mapping into the collection.
///
/// The node of the entry must have an accepted shape, then its key must be a
/// header name, then each of its values must be a legal header value, in
/// that order. A bare text replaces the values of the name; the items of a
/// sequence are appended to them. At most one name is added.
///
/// The collection may refuse to grow, which is reported as
/// `Error::CapacityExceeded`; it then held at least `REFUSAL_FLOOR - 1`
/// names before the entry.
pub fn add_entry(
    headers: &mut HeaderMap<HeaderValue>,
    key: &str,
    value: &Node,
    is_human_readable: bool,
) -> (result: Result<(), Error>)
    ensures
        is_refusal(result) ==> entry_offers(key@, value@, is_human_readable),
        is_refusal(result) ==> header_groups(*old(headers)).len() + 1 >= REFUSAL_FLOOR,
        result is Ok ==> header_groups(*final(headers)).len() <= header_groups(
            *old(headers),
        ).len() + 1,
        !is_refusal(result) ==> match with_entry(
            header_groups(*old(headers)),
            key@,
            value@,
            is_human_readable,
        ) {
            Ok(groups) => result is Ok && header_groups(*final(headers)) == groups,
            Err(error) => result is Err && result->Err_0@ == error,
        },
{
    let shape = match classify(value, is_human_readable) {
        Some(shape) => shape,
        None => {
            return Err(Error::UnexpectedShape);
        },
    };
    let name = match parse_header_name(key) {
        Ok(name) => name,
        Err(_) => {
            return Err(Error::invalid_str(key));
        },
    };
    match shape {
        OneOrMore::One(text) => insert_one(headers, name, text),
        OneOrMore::Strings(texts) => append_texts(headers, &name, &texts),
        OneOrMore::Bytes(blobs) => append_blobs(headers, &name, &blobs),
    }
}

/// Decodes a header collection from a mapping, entry by entry.
///
/// Each key must be a header name. For a compact format each entry must hold
/// a sequence of byte arrays; for a human-readable format it may hold a bare
/// text, a sequence of texts or a sequence of byte arrays. Each value must be
/// a legal header value. A bare text becomes the only value of its name; the
/// items of a sequence are appended to the values of their name, in order.
/// The first entry, key or value that is refused ends the decoding with its
/// error.
///
/// The collection itself may refuse to grow, which is reported as
/// `Error::CapacityExceeded`. That can happen only where a value is handed
/// to it, and only for a mapping of at least `REFUSAL_FLOOR` entries: a
/// smaller mapping is decoded to exactly what `decoded` says. What is
/// decoded is well-formed.
pub fn deserialize(
    node: &Node,
    is_human_readable: bool,
) -> (result: Result<HeaderMap<HeaderValue>, Error>)
    ensures
        is_refusal(result) ==> offers(node@, is_human_readable),
        is_refusal(result) ==> node@ is Mapping && node@->Mapping_0.len() >= REFUSAL_FLOOR,
        result is Ok ==> well_formed(header_groups(result->Ok_0)),
        !is_refusal(result) ==> match decoded(node@, is_human_readable) {
            Ok(groups) => result is Ok && header_groups(result->Ok_0) == groups,
            Err(error) => result is Err && result->Err_0@ == error,
        },
{
    let entries = match node {
        Node::Mapping(entries) => entries,
        _ => {
            return Err(Error::UnexpectedShape);
        },
    };
    proof {
        Node::lemma_mapping_view(*entries);
    }
    let ghost all = entry_views_of(entries@);
    let mut headers = with_capacity_hint(entries.len());
    let mut i: usize = 0;
    while i < entries.len()
        invariant
            i <= entries.len(),
            all == entry_views_of(entries@),
            node@ == NodeView::Mapping(all),
            header_groups(headers).len() <= i,
            decoded_entries(all.take(i as int), is_human_readable) == Ok::<_, ErrorView>(
                header_groups(headers),
            ),
        decreases entries.len() - i,
    {
        proof {
            assert(all.take(i as int + 1).drop_last() =~= all.take(i as int));
            assert(all.take(i as int + 1).last() == all[i as int]);
        }
        let entry = &entries[i];
        match add_entry(&mut headers, entry.0.as_str(), &entry.1, is_human_readable) {
            Ok(_) => {},
            Err(error) => {
                proof {
                    if !is_refusal::<()>(Err(error)) {
                        lemma_entries_error_sticks(all, is_human_readable, i as int + 1);
                    }
                }
                return Err(error);
            },
        }
        i += 1;
    }
    proof {
        assert(all.take(entries.len() as int) =~= all);
        lemma_decoded_is_well_formed(node@, is_human_readable);
    }
    Ok(headers)
}

} // verus!
