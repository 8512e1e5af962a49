//! What a node is decoded to as a header collection.

use crate::error::{Error, ErrorView, RejectedView};
use crate::headers::{appended, is_header_name, is_legal_value, lowered, replaced};
use crate::node::NodeView;
use vstd::prelude::*;
use vstd::utf8::encode_utf8;

verus! {

/// The mathematical value of a shape of values: a single text, a sequence
/// of texts, or a sequence of byte arrays.
pub enum OneOrMoreView {
    One(Seq<char>),
    Strings(Seq<Seq<char>>),
    Bytes(Seq<Seq<u8>>),
}

/// Every item is a text.
pub open spec fn all_str(items: Seq<NodeView>) -> bool {
    forall|i: int| 0 <= i < items.len() ==> #[trigger] items[i] is Str
}

/// Every item is a byte array.
pub open spec fn all_bytes(items: Seq<NodeView>) -> bool {
    forall|i: int| 0 <= i < items.len() ==> #[trigger] items[i] is Bytes
}

/// The texts of a sequence of text items.
pub open spec fn texts_in(items: Seq<NodeView>) -> Seq<Seq<char>> {
    Seq::new(items.len(), |i: int| items[i]->Str_0)
}

/// The byte arrays of a sequence of byte array items.
pub open spec fn blobs_in(items: Seq<NodeView>) -> Seq<Seq<u8>> {
    Seq::new(items.len(), |i: int| items[i]->Bytes_0)
}

/// The shape of the node that stands for the values of one name, if it has
/// one of the accepted shapes.
///
/// A human-readable format may give a bare text, a sequence of texts or a
/// sequence of byte arrays; an empty sequence counts as a sequence of texts.
/// A compact format must give a sequence of byte arrays.
pub open spec fn shape_of(node: NodeView, is_human_readable: bool) -> Option<OneOrMoreView> {
    match node {
        NodeView::Str(text) => if is_human_readable {
            Some(OneOrMoreView::One(text))
        } else {
            None
        },
        NodeView::Sequence(items) => if is_human_readable && all_str(items) {
            Some(OneOrMoreView::Strings(texts_in(items)))
        } else if all_bytes(items) {
            Some(OneOrMoreView::Bytes(blobs_in(items)))
        } else {
            None
        },
        _ => None,
    }
}

/// The groups after a single text was inserted under a name, in place of
/// whatever the name had.
pub open spec fn with_one(
    groups: Seq<(Seq<char>, Seq<Seq<u8>>)>,
    name: Seq<char>,
    text: Seq<char>,
) -> Result<Seq<(Seq<char>, Seq<Seq<u8>>)>, ErrorView> {
    if is_legal_value(encode_utf8(text)) {
        Ok(replaced(groups, name, encode_utf8(text)))
    } else {
        Err(ErrorView::InvalidValue(RejectedView::Str(text)))
    }
}

/// The groups after each text of a sequence was appended under a name, in
/// order; the first text that is no legal header value is the error.
pub open spec fn with_texts(
    groups: Seq<(Seq<char>, Seq<Seq<u8>>)>,
    name: Seq<char>,
    texts: Seq<Seq<char>>,
) -> Result<Seq<(Seq<char>, Seq<Seq<u8>>)>, ErrorView>
    decreases texts.len(),
{
    if texts.len() == 0 {
        Ok(groups)
    } else {
        match with_texts(groups, name, texts.drop_last()) {
            Ok(before) => if is_legal_value(encode_utf8(texts.last())) {
                Ok(appended(before, name, encode_utf8(texts.last())))
            } else {
                Err(ErrorView::InvalidValue(RejectedView::Str(texts.last())))
            },
            Err(error) => Err(error),
        }
    }
}

/// The groups after each byte array of a sequence was appended under a
/// name, in order; the first byte array that is no legal header value is the
/// error.
pub open spec fn with_blobs(
    groups: Seq<(Seq<char>, Seq<Seq<u8>>)>,
    name: Seq<char>,
    blobs: Seq<Seq<u8>>,
) -> Result<Seq<(Seq<char>, Seq<Seq<u8>>)>, ErrorView>
    decreases blobs.len(),
{
    if blobs.len() == 0 {
        Ok(groups)
    } else {
        match with_blobs(groups, name, blobs.drop_last()) {
            Ok(before) => if is_legal_value(blobs.last()) {
                Ok(appended(before, name, blobs.last()))
            } else {
                Err(ErrorView::InvalidValue(RejectedView::Bytes(blobs.last())))
            },
            Err(error) => Err(error),
        }
    }
}

/// The groups after one entry of the mapping was taken in.
///
/// The node of the entry must have an accepted shape, then its key must be a
/// header name, then each of its values must be a legal header value, in
/// that order. A bare text replaces the values of the name; the items of a
/// sequence are appended to them.
pub open spec fn with_entry(
    groups: Seq<(Seq<char>, Seq<Seq<u8>>)>,
    key: Seq<char>,
    value: NodeView,
    is_human_readable: bool,
) -> Result<Seq<(Seq<char>, Seq<Seq<u8>>)>, ErrorView> {
    match shape_of(value, is_human_readable) {
        None => Err(ErrorView::UnexpectedShape),
        Some(shape) => if !is_header_name(key) {
            Err(ErrorView::InvalidValue(RejectedView::Str(key)))
        } else {
            match shape {
                OneOrMoreView::One(text) => with_one(groups, lowered(key), text),
                OneOrMoreView::Strings(texts) => with_texts(groups, lowered(key), texts),
                OneOrMoreView::Bytes(blobs) => with_blobs(groups, lowered(key), blobs),
            }
        },
    }
}

/// The groups after the entries of the mapping were taken in, in order,
/// starting from nothing; the first entry that is refused is the error.
pub open spec fn decoded_entries(
    entries: Seq<(Seq<char>, NodeView)>,
    is_human_readable: bool,
) -> Result<Seq<(Seq<char>, Seq<Seq<u8>>)>, ErrorView>
    decreases entries.len(),
{
    if entries.len() == 0 {
        Ok(Seq::empty())
    } else {
        match decoded_entries(entries.drop_last(), is_human_readable) {
            Ok(before) => with_entry(
                before,
                entries.last().0,
                entries.last().1,
                is_human_readable,
            ),
            Err(error) => Err(error),
        }
    }
}

/// What decoding a node as a header collection yields: the groups of the
/// collection, or the reason for which the node is refused.
pub open spec fn decoded(node: NodeView, is_human_readable: bool) -> Result<
    Seq<(Seq<char>, Seq<Seq<u8>>)>,
    ErrorView,
> {
    match node {
        NodeView::Mapping(entries) => decoded_entries(entries, is_human_readable),
        _ => Err(ErrorView::UnexpectedShape),
    }
}

/// An entry hands at least one value to the collection: its node has an
/// accepted shape, its key is a header name, and its first value is a legal
/// header value.
pub open spec fn entry_offers(key: Seq<char>, value: NodeView, is_human_readable: bool) -> bool {
    &&& is_header_name(key)
    &&& match shape_of(value, is_human_readable) {
        Some(OneOrMoreView::One(text)) => is_legal_value(encode_utf8(text)),
        Some(OneOrMoreView::Strings(texts)) => texts.len() > 0 && is_legal_value(
            encode_utf8(texts[0]),
        ),
        Some(OneOrMoreView::Bytes(blobs)) => blobs.len() > 0 && is_legal_value(blobs[0]),
        None => false,
    }
}

/// Decoding the node hands at least one value to the collection: some entry
/// does, and the entries before it are all accepted.
pub open spec fn offers(node: NodeView, is_human_readable: bool) -> bool {
    node matches NodeView::Mapping(entries) && exists|i: int|
        0 <= i < entries.len() && decoded_entries(entries.take(i), is_human_readable) is Ok
            && #[trigger] entry_offers(entries[i].0, entries[i].1, is_human_readable)
}

/// The result is the error of a collection that refused to grow.
pub open spec fn is_refusal<T>(result: Result<T, Error>) -> bool {
    result matches Err(error) && error@ == ErrorView::CapacityExceeded
}

/// Once a text of the sequence is refused, the whole sequence is refused
/// with the same error.
pub proof fn lemma_texts_error_sticks(
    groups: Seq<(Seq<char>, Seq<Seq<u8>>)>,
    name: Seq<char>,
    texts: Seq<Seq<char>>,
    upto: int,
)
    requires
        0 <= upto <= texts.len(),
        with_texts(groups, name, texts.take(upto)) is Err,
    ensures
        with_texts(groups, name, texts) == with_texts(groups, name, texts.take(upto)),
    decreases texts.len(),
{
    if upto == texts.len() {
        assert(texts.take(upto) =~= texts);
    } else {
        assert(texts.drop_last().take(upto) =~= texts.take(upto));
        lemma_texts_error_sticks(groups, name, texts.drop_last(), upto);
    }
}

/// Once a byte array of the sequence is refused, the whole sequence is
/// refused with the same error.
pub proof fn lemma_blobs_error_sticks(
    groups: Seq<(Seq<char>, Seq<Seq<u8>>)>,
    name: Seq<char>,
    blobs: Seq<Seq<u8>>,
    upto: int,
)
    requires
        0 <= upto <= blobs.len(),
        with_blobs(groups, name, blobs.take(upto)) is Err,
    ensures
        with_blobs(groups, name, blobs) == with_blobs(groups, name, blobs.take(upto)),
    decreases blobs.len(),
{
    if upto == blobs.len() {
        assert(blobs.take(upto) =~= blobs);
    } else {
        assert(blobs.drop_last().take(upto) =~= blobs.take(upto));
        lemma_blobs_error_sticks(groups, name, blobs.drop_last(), upto);
    }
}

/// Once an entry of the mapping is refused, the whole mapping is refused
/// with the same error.
pub proof fn lemma_entries_error_sticks(
    entries: Seq<(Seq<char>, NodeView)>,
    is_human_readable: bool,
    upto: int,
)
    requires
        0 <= upto <= entries.len(),
        decoded_entries(entries.take(upto), is_human_readable) is Err,
    ensures
        decoded_entries(entries, is_human_readable) == decoded_entries(
            entries.take(upto),
            is_human_readable,
        ),
    decreases entries.len(),
{
    if upto == entries.len() {
        assert(entries.take(upto) =~= entries);
    } else {
        assert(entries.drop_last().take(upto) =~= entries.take(upto));
        lemma_entries_error_sticks(entries.drop_last(), is_human_readable, upto);
    }
}

/// Malformed input: a mapping with a key that is no header name is refused
/// as a whole, whatever its other entries hold. Where the entries before
/// that key are accepted and the node of the key has an accepted shape, the
/// error is the invalid value that carries the key.
pub proof fn lemma_malformed_key_is_refused(
    entries: Seq<(Seq<char>, NodeView)>,
    is_human_readable: bool,
    at: int,
)
    requires
        0 <= at < entries.len(),
        !is_header_name(entries[at].0),
    ensures
        decoded(NodeView::Mapping(entries), is_human_readable) is Err,
        decoded_entries(entries.take(at), is_human_readable) is Ok && shape_of(
            entries[at].1,
            is_human_readable,
        ) is Some ==> decoded(NodeView::Mapping(entries), is_human_readable) == Err::<
            Seq<(Seq<char>, Seq<Seq<u8>>)>,
            ErrorView,
        >(ErrorView::InvalidValue(RejectedView::Str(entries[at].0))),
{
    let upto = entries.take(at + 1);
    assert(upto.drop_last() =~= entries.take(at));
    assert(upto.last() == entries[at]);
    lemma_entries_error_sticks(entries, is_human_readable, at + 1);
}

} // verus!
