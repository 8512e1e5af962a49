//! Encoding a header collection and decoding the result gives it back.

use crate::decoding::{
    blobs_in, decoded, decoded_entries, shape_of, texts_in, with_blobs, with_entry, with_texts,
    OneOrMoreView,
};
use crate::encoding::{
    encoded, encoded_entries, encoded_values, lemma_shown_values_all, raw_values, shown_values,
};
use crate::error::ErrorView;
use crate::headers::{
    all_shown, ascii_text, is_legal_value, is_text_value, position, replaced, well_formed,
};
use crate::node::NodeView;
use vstd::prelude::*;
use vstd::utf8::{encode_utf8, is_ascii_chars, is_ascii_chars_encode_utf8};

verus! {

/// A value that can be shown as text is a legal value, and the UTF-8 bytes
/// of its text are the value itself.
proof fn lemma_text_bytes(value: Seq<u8>)
    requires
        is_text_value(value),
    ensures
        is_legal_value(value),
        encode_utf8(ascii_text(value)) == value,
{
    let text = ascii_text(value);
    assert forall|i: int| 0 <= i < text.len() implies '\0' <= #[trigger] text[i] <= '\u{7f}' by {
        assert(crate::headers::is_text_byte(value[i]));
    }
    assert(is_ascii_chars(text));
    is_ascii_chars_encode_utf8(text);
    assert forall|i: int| 0 <= i < value.len() implies encode_utf8(text)[i] == value[i] by {
        assert(crate::headers::is_text_byte(value[i]));
        assert(text[i] as u8 == value[i]);
    }
    assert(encode_utf8(text) =~= value);
    assert forall|i: int| 0 <= i < value.len() implies crate::headers::is_value_byte(
        #[trigger] value[i],
    ) by {
        assert(crate::headers::is_text_byte(value[i]));
    }
}

/// A name that no group bears stands after all the groups.
proof fn lemma_position_absent(groups: Seq<(Seq<char>, Seq<Seq<u8>>)>, name: Seq<char>)
    requires
        forall|i: int| 0 <= i < groups.len() ==> (#[trigger] groups[i]).0 != name,
    ensures
        position(groups, name) == groups.len(),
    decreases groups.len(),
{
    if groups.len() > 0 {
        assert(groups[0].0 != name);
        assert forall|i: int| 0 <= i < groups.drop_first().len() implies (
        #[trigger] groups.drop_first()[i]).0 != name by {
            assert(groups.drop_first()[i] == groups[i + 1]);
        }
        lemma_position_absent(groups.drop_first(), name);
    }
}

/// A name that only the last group bears stands at the last group.
proof fn lemma_position_last(
    groups: Seq<(Seq<char>, Seq<Seq<u8>>)>,
    name: Seq<char>,
    values: Seq<Seq<u8>>,
)
    requires
        forall|i: int| 0 <= i < groups.len() ==> (#[trigger] groups[i]).0 != name,
    ensures
        position(groups.push((name, values)), name) == groups.len(),
    decreases groups.len(),
{
    let extended = groups.push((name, values));
    if groups.len() > 0 {
        assert(extended[0] == groups[0]);
        assert(extended.drop_first() =~= groups.drop_first().push((name, values)));
        assert forall|i: int| 0 <= i < groups.drop_first().len() implies (
        #[trigger] groups.drop_first()[i]).0 != name by {
            assert(groups.drop_first()[i] == groups[i + 1]);
        }
        lemma_position_last(groups.drop_first(), name, values);
    } else {
        assert(extended[0].0 == name);
    }
}

/// Appending the values of a new name one by one, as texts, builds the
/// group of that name.
proof fn lemma_texts_build_group(
    groups: Seq<(Seq<char>, Seq<Seq<u8>>)>,
    name: Seq<char>,
    values: Seq<Seq<u8>>,
)
    requires
        forall|i: int| 0 <= i < groups.len() ==> (#[trigger] groups[i]).0 != name,
        forall|j: int| 0 <= j < values.len() ==> is_text_value(#[trigger] values[j]),
    ensures
        with_texts(groups, name, values.map_values(|value: Seq<u8>| ascii_text(value))) == Ok::<
            Seq<(Seq<char>, Seq<Seq<u8>>)>,
            ErrorView,
        >(
            if values.len() == 0 {
                groups
            } else {
                groups.push((name, values))
            },
        ),
    decreases values.len(),
{
    let texts = values.map_values(|value: Seq<u8>| ascii_text(value));
    if values.len() > 0 {
        let init = values.drop_last();
        assert(texts.drop_last() =~= init.map_values(|value: Seq<u8>| ascii_text(value)));
        lemma_texts_build_group(groups, name, init);
        lemma_text_bytes(values.last());
        assert(texts.last() == ascii_text(values.last()));
        if init.len() == 0 {
            lemma_position_absent(groups, name);
            assert(seq![values.last()] =~= values);
        } else {
            lemma_position_last(groups, name, init);
            assert(groups.push((name, init)).update(
                groups.len() as int,
                (name, init.push(values.last())),
            ) =~= groups.push((name, values))) by {
                assert(init.push(values.last()) =~= values);
            }
        }
    }
}

/// Appending the values of a new name one by one, as byte arrays, builds
/// the group of that name.
proof fn lemma_blobs_build_group(
    groups: Seq<(Seq<char>, Seq<Seq<u8>>)>,
    name: Seq<char>,
    values: Seq<Seq<u8>>,
)
    requires
        forall|i: int| 0 <= i < groups.len() ==> (#[trigger] groups[i]).0 != name,
        forall|j: int| 0 <= j < values.len() ==> is_legal_value(#[trigger] values[j]),
    ensures
        with_blobs(groups, name, values) == Ok::<Seq<(Seq<char>, Seq<Seq<u8>>)>, ErrorView>(
            if values.len() == 0 {
                groups
            } else {
                groups.push((name, values))
            },
        ),
    decreases values.len(),
{
    if values.len() > 0 {
        let init = values.drop_last();
        lemma_blobs_build_group(groups, name, init);
        if init.len() == 0 {
            lemma_position_absent(groups, name);
            assert(seq![values.last()] =~= values);
        } else {
            lemma_position_last(groups, name, init);
            assert(groups.push((name, init)).update(
                groups.len() as int,
                (name, init.push(values.last())),
            ) =~= groups.push((name, values))) by {
                assert(init.push(values.last()) =~= values);
            }
        }
    }
}

/// Taking in the entry that stands for one more group, whose name is new,
/// adds that group.
proof fn lemma_entry_round_trip(
    groups: Seq<(Seq<char>, Seq<Seq<u8>>)>,
    name: Seq<char>,
    values: Seq<Seq<u8>>,
    is_human_readable: bool,
)
    requires
        well_formed(groups.push((name, values))),
        is_human_readable ==> all_shown(groups.push((name, values))),
    ensures
        with_entry(groups, name, encoded_values(values, is_human_readable), is_human_readable)
            == Ok::<Seq<(Seq<char>, Seq<Seq<u8>>)>, ErrorView>(groups.push((name, values))),
{
    let whole = groups.push((name, values));
    let at = groups.len() as int;
    assert(whole[at] == (name, values));
    assert forall|i: int| 0 <= i < groups.len() implies (#[trigger] groups[i]).0 != name by {
        assert(whole[i] == groups[i]);
        assert(whole[i].0 != whole[at].0);
    }
    assert(crate::headers::is_stored_name(whole[at].0));
    assert(values.len() >= 1) by {
        assert(whole[at].1.len() >= 1);
    }
    assert forall|j: int| 0 <= j < values.len() implies is_legal_value(#[trigger] values[j]) by {
        assert(is_legal_value(whole[at].1[j]));
    }
    let node = encoded_values(values, is_human_readable);
    if !is_human_readable {
        let items = raw_values(values);
        assert(blobs_in(items) =~= values);
        assert(shape_of(node, false) == Some(OneOrMoreView::Bytes(values)));
        lemma_blobs_build_group(groups, name, values);
    } else {
        assert forall|j: int| 0 <= j < values.len() implies is_text_value(#[trigger] values[j]) by {
            assert(is_text_value(whole[at].1[j]));
        }
        if values.len() == 1 {
            lemma_text_bytes(values[0]);
            lemma_position_absent(groups, name);
            assert(seq![values[0]] =~= values);
            assert(replaced(groups, name, values[0]) =~= whole);
        } else {
            lemma_shown_values_all(values);
            let items = shown_values(values);
            assert(texts_in(items) =~= values.map_values(|value: Seq<u8>| ascii_text(value)));
            assert(shape_of(node, true) == Some(
                OneOrMoreView::Strings(values.map_values(|value: Seq<u8>| ascii_text(value))),
            ));
            lemma_texts_build_group(groups, name, values);
        }
    }
}

/// Decoding the entries that stand for well-formed groups gives the groups
/// back.
proof fn lemma_entries_round_trip(
    groups: Seq<(Seq<char>, Seq<Seq<u8>>)>,
    is_human_readable: bool,
)
    requires
        well_formed(groups),
        is_human_readable ==> all_shown(groups),
    ensures
        decoded_entries(encoded_entries(groups, is_human_readable), is_human_readable) == Ok::<
            Seq<(Seq<char>, Seq<Seq<u8>>)>,
            ErrorView,
        >(groups),
    decreases groups.len(),
{
    let entries = encoded_entries(groups, is_human_readable);
    if groups.len() == 0 {
        assert(groups =~= Seq::empty());
    } else {
        let init = groups.drop_last();
        let last = groups.last();
        assert(init.push(last) =~= groups);
        assert(entries.drop_last() =~= encoded_entries(init, is_human_readable));
        assert forall|i: int| 0 <= i < init.len() implies init[i] == groups[i] by {}
        assert(well_formed(init)) by {
            assert forall|i: int, j: int| 0 <= i < init.len() && 0 <= j < init[i].1.len() implies is_legal_value(
            #[trigger] init[i].1[j]) by {
                assert(init[i] == groups[i]);
            }
        }
        if is_human_readable {
            assert(all_shown(init)) by {
                assert forall|i: int, j: int| 0 <= i < init.len() && 0 <= j < init[i].1.len() implies is_text_value(
                #[trigger] init[i].1[j]) by {
                    assert(init[i] == groups[i]);
                }
            }
        }
        lemma_entries_round_trip(init, is_human_readable);
        assert(last == (last.0, last.1));
        lemma_entry_round_trip(init, last.0, last.1, is_human_readable);
        assert(entries.last() == (last.0, encoded_values(last.1, is_human_readable)));
    }
}

/// Round trip: decoding the node that a header collection was encoded to,
/// in the same kind of format, gives back every name of the collection with
/// all its values, in order.
///
/// For a human-readable format this holds where every value can be shown as
/// text: encoding leaves out the values that cannot.
pub proof fn lemma_round_trip(groups: Seq<(Seq<char>, Seq<Seq<u8>>)>, is_human_readable: bool)
    requires
        well_formed(groups),
        is_human_readable ==> all_shown(groups),
    ensures
        decoded(encoded(groups, is_human_readable), is_human_readable) == Ok::<
            Seq<(Seq<char>, Seq<Seq<u8>>)>,
            ErrorView,
        >(groups),
{
    lemma_entries_round_trip(groups, is_human_readable);
}

/// What was decoded survives a further round trip: encoding the groups that
/// a node was decoded to and decoding the result gives the same groups. For
/// a human-readable format this holds where every value can be shown as
/// text.
pub proof fn lemma_decoded_round_trip(node: NodeView, is_human_readable: bool)
    requires
        decoded(node, is_human_readable) is Ok,
        is_human_readable ==> all_shown(decoded(node, is_human_readable)->Ok_0),
    ensures
        decoded(
            encoded(decoded(node, is_human_readable)->Ok_0, is_human_readable),
            is_human_readable,
        ) == decoded(node, is_human_readable),
{
    crate::validity::lemma_decoded_is_well_formed(node, is_human_readable);
    lemma_round_trip(decoded(node, is_human_readable)->Ok_0, is_human_readable);
}

} // verus!
