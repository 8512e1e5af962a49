//! Decoding yields only well-formed header collections.

use crate::decoding::{
    decoded, decoded_entries, shape_of, with_blobs, with_entry, with_texts, OneOrMoreView,
};
use crate::headers::{
    appended, is_header_name, is_legal_value, is_stored_name, lowered, lowered_char, position,
    replaced, well_formed,
};
use crate::node::NodeView;
use crate::token::is_token_char;
use vstd::prelude::*;
use vstd::utf8::encode_utf8;

verus! {

/// Where a name stands: at the first group that bears it, if any does.
pub proof fn lemma_position(groups: Seq<(Seq<char>, Seq<Seq<u8>>)>, name: Seq<char>)
    ensures
        0 <= position(groups, name) <= groups.len(),
        position(groups, name) < groups.len() ==> groups[position(groups, name)].0 == name,
        forall|k: int| 0 <= k < position(groups, name) ==> (#[trigger] groups[k]).0 != name,
    decreases groups.len(),
{
    if groups.len() > 0 && groups[0].0 != name {
        let rest = groups.drop_first();
        lemma_position(rest, name);
        assert forall|k: int| 0 <= k < position(groups, name) implies (#[trigger] groups[k]).0
            != name by {
            if k > 0 {
                assert(rest[k - 1] == groups[k]);
            }
        }
        if position(groups, name) < groups.len() {
            assert(rest[position(rest, name)] == groups[position(groups, name)]);
        }
    }
}

/// Appending adds at most one group, none where the name is there already,
/// and leaves the name among the groups.
pub proof fn lemma_appended_count(
    groups: Seq<(Seq<char>, Seq<Seq<u8>>)>,
    name: Seq<char>,
    value: Seq<u8>,
)
    ensures
        groups.len() <= appended(groups, name, value).len() <= groups.len() + 1,
        position(groups, name) < groups.len() ==> appended(groups, name, value).len()
            == groups.len(),
        position(appended(groups, name, value), name) < appended(groups, name, value).len(),
{
    let after = appended(groups, name, value);
    let at = position(groups, name);
    lemma_position(groups, name);
    lemma_position(after, name);
    assert(after[at].0 == name);
}

/// Inserting adds at most one group, none where the name is there already,
/// and leaves the name among the groups.
pub proof fn lemma_replaced_count(
    groups: Seq<(Seq<char>, Seq<Seq<u8>>)>,
    name: Seq<char>,
    value: Seq<u8>,
)
    ensures
        groups.len() <= replaced(groups, name, value).len() <= groups.len() + 1,
        position(groups, name) < groups.len() ==> replaced(groups, name, value).len()
            == groups.len(),
        position(replaced(groups, name, value), name) < replaced(groups, name, value).len(),
{
    let after = replaced(groups, name, value);
    let at = position(groups, name);
    lemma_position(groups, name);
    lemma_position(after, name);
    assert(after[at].0 == name);
}

/// Lowering a header name gives a stored name.
pub proof fn lemma_lowered_is_stored(key: Seq<char>)
    requires
        is_header_name(key),
    ensures
        is_stored_name(lowered(key)),
{
    let name = lowered(key);
    assert forall|i: int| 0 <= i < name.len() implies is_token_char(#[trigger] name[i]) by {
        assert(is_token_char(key[i]));
        assert(name[i] == lowered_char(key[i]));
    }
    assert forall|i: int| 0 <= i < name.len() implies lowered(name)[i] == name[i] by {
        assert(name[i] == lowered_char(key[i]));
        assert(lowered(name)[i] == lowered_char(name[i]));
    }
    assert(lowered(name) =~= name);
}

/// Appending a legal value under a stored name keeps the groups well-formed.
pub proof fn lemma_appended_is_well_formed(
    groups: Seq<(Seq<char>, Seq<Seq<u8>>)>,
    name: Seq<char>,
    value: Seq<u8>,
)
    requires
        well_formed(groups),
        is_stored_name(name),
        is_legal_value(value),
    ensures
        well_formed(appended(groups, name, value)),
{
    lemma_position(groups, name);
    let at = position(groups, name);
    let after = appended(groups, name, value);
    if at < groups.len() {
        assert forall|i: int| 0 <= i < after.len() implies (#[trigger] after[i]).0 == groups[i].0
            && after[i].1.len() >= 1 by {
            if i != at {
                assert(after[i] == groups[i]);
            }
        }
        assert forall|i: int, j: int|
            0 <= i < after.len() && 0 <= j < after[i].1.len() implies is_legal_value(
            #[trigger] after[i].1[j],
        ) by {
            if i != at {
                assert(after[i] == groups[i]);
                assert(is_legal_value(groups[i].1[j]));
            } else if j < groups[at].1.len() {
                assert(after[at].1[j] == groups[at].1[j]);
                assert(is_legal_value(groups[at].1[j]));
            }
        }
        assert forall|i: int, j: int| 0 <= i < j < after.len() implies (#[trigger] after[i]).0 != (
        #[trigger] after[j]).0 by {
            assert(groups[i].0 != groups[j].0);
        }
    } else {
        assert forall|i: int| 0 <= i < after.len() implies is_stored_name((#[trigger] after[i]).0)
            && after[i].1.len() >= 1 by {
            if i < groups.len() {
                assert(after[i] == groups[i]);
            }
        }
        assert forall|i: int, j: int|
            0 <= i < after.len() && 0 <= j < after[i].1.len() implies is_legal_value(
            #[trigger] after[i].1[j],
        ) by {
            if i < groups.len() {
                assert(after[i] == groups[i]);
                assert(is_legal_value(groups[i].1[j]));
            }
        }
        assert forall|i: int, j: int| 0 <= i < j < after.len() implies (#[trigger] after[i]).0 != (
        #[trigger] after[j]).0 by {
            assert(after[i] == groups[i]);
            if j < groups.len() {
                assert(after[j] == groups[j]);
                assert(groups[i].0 != groups[j].0);
            }
        }
    }
}

/// Inserting a legal value under a stored name keeps the groups
/// well-formed.
pub proof fn lemma_replaced_is_well_formed(
    groups: Seq<(Seq<char>, Seq<Seq<u8>>)>,
    name: Seq<char>,
    value: Seq<u8>,
)
    requires
        well_formed(groups),
        is_stored_name(name),
        is_legal_value(value),
    ensures
        well_formed(replaced(groups, name, value)),
{
    lemma_position(groups, name);
    let at = position(groups, name);
    let after = replaced(groups, name, value);
    if at < groups.len() {
        assert forall|i: int| 0 <= i < after.len() implies (#[trigger] after[i]).0 == groups[i].0
            && after[i].1.len() >= 1 by {
            if i != at {
                assert(after[i] == groups[i]);
            }
        }
        assert forall|i: int, j: int|
            0 <= i < after.len() && 0 <= j < after[i].1.len() implies is_legal_value(
            #[trigger] after[i].1[j],
        ) by {
            if i != at {
                assert(after[i] == groups[i]);
                assert(is_legal_value(groups[i].1[j]));
            }
        }
        assert forall|i: int, j: int| 0 <= i < j < after.len() implies (#[trigger] after[i]).0 != (
        #[trigger] after[j]).0 by {
            assert(groups[i].0 != groups[j].0);
        }
    } else {
        assert(after == appended(groups, name, value));
        lemma_appended_is_well_formed(groups, name, value);
    }
}

/// Appending a sequence of texts under a stored name keeps the groups
/// well-formed.
pub proof fn lemma_with_texts_is_well_formed(
    groups: Seq<(Seq<char>, Seq<Seq<u8>>)>,
    name: Seq<char>,
    texts: Seq<Seq<char>>,
)
    requires
        well_formed(groups),
        is_stored_name(name),
        with_texts(groups, name, texts) is Ok,
    ensures
        well_formed(with_texts(groups, name, texts)->Ok_0),
    decreases texts.len(),
{
    if texts.len() > 0 {
        lemma_with_texts_is_well_formed(groups, name, texts.drop_last());
        lemma_appended_is_well_formed(
            with_texts(groups, name, texts.drop_last())->Ok_0,
            name,
            encode_utf8(texts.last()),
        );
    }
}

/// Appending a sequence of byte arrays under a stored name keeps the groups
/// well-formed.
pub proof fn lemma_with_blobs_is_well_formed(
    groups: Seq<(Seq<char>, Seq<Seq<u8>>)>,
    name: Seq<char>,
    blobs: Seq<Seq<u8>>,
)
    requires
        well_formed(groups),
        is_stored_name(name),
        with_blobs(groups, name, blobs) is Ok,
    ensures
        well_formed(with_blobs(groups, name, blobs)->Ok_0),
    decreases blobs.len(),
{
    if blobs.len() > 0 {
        lemma_with_blobs_is_well_formed(groups, name, blobs.drop_last());
        lemma_appended_is_well_formed(
            with_blobs(groups, name, blobs.drop_last())->Ok_0,
            name,
            blobs.last(),
        );
    }
}

/// Taking in an entry keeps the groups well-formed.
pub proof fn lemma_with_entry_is_well_formed(
    groups: Seq<(Seq<char>, Seq<Seq<u8>>)>,
    key: Seq<char>,
    value: NodeView,
    is_human_readable: bool,
)
    requires
        well_formed(groups),
        with_entry(groups, key, value, is_human_readable) is Ok,
    ensures
        well_formed(with_entry(groups, key, value, is_human_readable)->Ok_0),
{
    lemma_lowered_is_stored(key);
    match shape_of(value, is_human_readable)->Some_0 {
        OneOrMoreView::One(text) => {
            lemma_replaced_is_well_formed(groups, lowered(key), encode_utf8(text));
        },
        OneOrMoreView::Strings(texts) => {
            lemma_with_texts_is_well_formed(groups, lowered(key), texts);
        },
        OneOrMoreView::Bytes(blobs) => {
            lemma_with_blobs_is_well_formed(groups, lowered(key), blobs);
        },
    }
}

/// Taking in the entries of a mapping, starting from nothing, gives
/// well-formed groups.
pub proof fn lemma_decoded_entries_are_well_formed(
    entries: Seq<(Seq<char>, NodeView)>,
    is_human_readable: bool,
)
    requires
        decoded_entries(entries, is_human_readable) is Ok,
    ensures
        well_formed(decoded_entries(entries, is_human_readable)->Ok_0),
    decreases entries.len(),
{
    if entries.len() > 0 {
        lemma_decoded_entries_are_well_formed(entries.drop_last(), is_human_readable);
        lemma_with_entry_is_well_formed(
            decoded_entries(entries.drop_last(), is_human_readable)->Ok_0,
            entries.last().0,
            entries.last().1,
            is_human_readable,
        );
    }
}

/// What decoding accepts is well-formed: each name of the groups is a
/// stored name and occurs once, and each has at least one value, all of them
/// legal.
pub proof fn lemma_decoded_is_well_formed(node: NodeView, is_human_readable: bool)
    requires
        decoded(node, is_human_readable) is Ok,
    ensures
        well_formed(decoded(node, is_human_readable)->Ok_0),
{
    lemma_decoded_entries_are_well_formed(node->Mapping_0, is_human_readable);
}

} // verus!
