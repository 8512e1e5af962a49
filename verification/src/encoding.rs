//! What a header collection is encoded to.

use crate::headers::{ascii_text, is_text_value};
use crate::node::NodeView;
use vstd::prelude::*;

verus! {

/// The values of one name as texts, for a human-readable format: those
/// values that can be shown as text, in order; the others are left out.
pub open spec fn shown_values(values: Seq<Seq<u8>>) -> Seq<NodeView> {
    values.filter(|value: Seq<u8>| is_text_value(value)).map_values(
        |value: Seq<u8>| NodeView::Str(ascii_text(value)),
    )
}

/// The values of one name as byte arrays, for a compact format.
pub open spec fn raw_values(values: Seq<Seq<u8>>) -> Seq<NodeView> {
    values.map_values(|value: Seq<u8>| NodeView::Bytes(value))
}

/// The node that stands for the values of one name.
///
/// A compact format gets a sequence of byte arrays, whatever their number.
/// A human-readable format gets a bare text for a single value that can be
/// shown as text, and else a sequence of the values that can.
pub open spec fn encoded_values(values: Seq<Seq<u8>>, is_human_readable: bool) -> NodeView {
    if !is_human_readable {
        NodeView::Sequence(raw_values(values))
    } else if values.len() == 1 && is_text_value(values[0]) {
        NodeView::Str(ascii_text(values[0]))
    } else {
        NodeView::Sequence(shown_values(values))
    }
}

/// The entries that stand for the groups of a header collection: one entry
/// for each name, in order.
pub open spec fn encoded_entries(
    groups: Seq<(Seq<char>, Seq<Seq<u8>>)>,
    is_human_readable: bool,
) -> Seq<(Seq<char>, NodeView)> {
    groups.map_values(
        |group: (Seq<char>, Seq<Seq<u8>>)| (group.0, encoded_values(group.1, is_human_readable)),
    )
}

/// The node that stands for a header collection.
pub open spec fn encoded(
    groups: Seq<(Seq<char>, Seq<Seq<u8>>)>,
    is_human_readable: bool,
) -> NodeView {
    NodeView::Mapping(encoded_entries(groups, is_human_readable))
}

/// One more value joins the shown values if it can be shown as text, and is
/// left out if it cannot.
pub proof fn lemma_shown_values_push(values: Seq<Seq<u8>>, value: Seq<u8>)
    ensures
        shown_values(values.push(value)) == if is_text_value(value) {
            shown_values(values).push(NodeView::Str(ascii_text(value)))
        } else {
            shown_values(values)
        },
{
    let keep = |value: Seq<u8>| is_text_value(value);
    reveal(Seq::filter);
    assert(values.push(value).drop_last() =~= values);
    assert(values.push(value).filter(keep) =~= if keep(value) {
        values.filter(keep).push(value)
    } else {
        values.filter(keep)
    });
    if is_text_value(value) {
        assert(shown_values(values.push(value)) =~= shown_values(values).push(
            NodeView::Str(ascii_text(value)),
        ));
    }
}

/// Where every value can be shown as text, none is left out.
pub proof fn lemma_shown_values_all(values: Seq<Seq<u8>>)
    requires
        forall|j: int| 0 <= j < values.len() ==> is_text_value(#[trigger] values[j]),
    ensures
        shown_values(values) == values.map_values(
            |value: Seq<u8>| NodeView::Str(ascii_text(value)),
        ),
    decreases values.len(),
{
    let keep = |value: Seq<u8>| is_text_value(value);
    reveal(Seq::filter);
    if values.len() > 0 {
        lemma_shown_values_all(values.drop_last());
        assert(values.drop_last().filter(keep) =~= values.drop_last()) by {
            lemma_filter_all(values.drop_last());
        }
        assert(values.filter(keep) =~= values);
    } else {
        assert(values.filter(keep) =~= values);
    }
}

/// A filter that every item passes keeps the list as it is.
proof fn lemma_filter_all(values: Seq<Seq<u8>>)
    requires
        forall|j: int| 0 <= j < values.len() ==> is_text_value(#[trigger] values[j]),
    ensures
        values.filter(|value: Seq<u8>| is_text_value(value)) == values,
    decreases values.len(),
{
    let keep = |value: Seq<u8>| is_text_value(value);
    reveal(Seq::filter);
    if values.len() > 0 {
        lemma_filter_all(values.drop_last());
        assert(values.drop_last().push(values.last()) =~= values);
    }
    assert(values.filter(keep) =~= values);
}

/// A compact format gets, for every name, the sequence of all its values as
/// byte arrays, in order, also where the name has a single value.
pub proof fn lemma_compact_entry(groups: Seq<(Seq<char>, Seq<Seq<u8>>)>, at: int)
    requires
        0 <= at < groups.len(),
    ensures
        encoded_entries(groups, false).len() == groups.len(),
        encoded_entries(groups, false)[at] == (
            groups[at].0,
            NodeView::Sequence(raw_values(groups[at].1)),
        ),
        raw_values(groups[at].1).len() == groups[at].1.len(),
        forall|j: int|
            0 <= j < groups[at].1.len() ==> #[trigger] raw_values(groups[at].1)[j]
                == NodeView::Bytes(groups[at].1[j]),
{
}

/// A human-readable format gets, for a name whose values can all be shown
/// as text, a bare text where there is one value and else the sequence of
/// all the values as texts, in order.
pub proof fn lemma_readable_entry(groups: Seq<(Seq<char>, Seq<Seq<u8>>)>, at: int)
    requires
        0 <= at < groups.len(),
        forall|j: int| 0 <= j < groups[at].1.len() ==> is_text_value(#[trigger] groups[at].1[j]),
    ensures
        encoded_entries(groups, true).len() == groups.len(),
        encoded_entries(groups, true)[at].0 == groups[at].0,
        groups[at].1.len() == 1 ==> encoded_entries(groups, true)[at].1 == NodeView::Str(
            ascii_text(groups[at].1[0]),
        ),
        groups[at].1.len() != 1 ==> encoded_entries(groups, true)[at].1 == NodeView::Sequence(
            shown_values(groups[at].1),
        ),
        shown_values(groups[at].1).len() == groups[at].1.len(),
        forall|j: int|
            0 <= j < groups[at].1.len() ==> #[trigger] shown_values(groups[at].1)[j]
                == NodeView::Str(ascii_text(groups[at].1[j])),
{
    lemma_shown_values_all(groups[at].1);
}

} // verus!
