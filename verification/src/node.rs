//! The serialization tree and its mathematical view.

use vstd::prelude::*;

verus! {

/// A value of the format-neutral serialization tree. Every adapter of this
/// crate encodes a typed value into a `Node` and decodes a typed value from
/// one; a format driver turns nodes into text or bytes and back.
#[derive(Debug, PartialEq, Eq)]
pub enum Node {
    /// The explicit marker for "no value".
    Absent,
    /// An unsigned integer of sixteen bits.
    U16(u16),
    /// An unsigned integer of any width up to 64 bits.
    U64(u64),
    /// A signed integer of any width up to 64 bits.
    I64(i64),
    /// A text string.
    Str(String),
    /// A byte array.
    Bytes(Vec<u8>),
    /// An ordered sequence of nodes.
    Sequence(Vec<Node>),
    /// An ordered list of entries, each a text key with its node.
    Mapping(Vec<(String, Node)>),
}

/// The mathematical value of a [`Node`].
pub enum NodeView {
    Absent,
    U16(u16),
    U64(u64),
    I64(i64),
    Str(Seq<char>),
    Bytes(Seq<u8>),
    Sequence(Seq<NodeView>),
    Mapping(Seq<(Seq<char>, NodeView)>),
}

/// The mathematical value of a node, by recursion on the tree.
pub open spec fn node_view(node: Node) -> NodeView
    decreases node,
{
    match node {
        Node::Absent => NodeView::Absent,
        Node::U16(n) => NodeView::U16(n),
        Node::U64(n) => NodeView::U64(n),
        Node::I64(n) => NodeView::I64(n),
        Node::Str(text) => NodeView::Str(text@),
        Node::Bytes(bytes) => NodeView::Bytes(bytes@),
        Node::Sequence(items) => NodeView::Sequence(
            Seq::new(
                items@.len(),
                |i: int|
                    if 0 <= i < items@.len() {
                        node_view(items@[i])
                    } else {
                        NodeView::Absent
                    },
            ),
        ),
        Node::Mapping(entries) => NodeView::Mapping(
            Seq::new(
                entries@.len(),
                |i: int|
                    if 0 <= i < entries@.len() {
                        (entries@[i].0@, node_view(entries@[i].1))
                    } else {
                        (Seq::empty(), NodeView::Absent)
                    },
            ),
        ),
    }
}

impl View for Node {
    type V = NodeView;

    open spec fn view(&self) -> NodeView {
        node_view(*self)
    }
}

/// The values of the nodes of a list.
pub open spec fn views_of(items: Seq<Node>) -> Seq<NodeView> {
    Seq::new(items.len(), |i: int| items[i]@)
}

/// The values of the entries of a list: each key with the value of its node.
pub open spec fn entry_views_of(entries: Seq<(String, Node)>) -> Seq<(Seq<char>, NodeView)> {
    Seq::new(entries.len(), |i: int| (entries[i].0@, entries[i].1@))
}

impl Node {
    /// A sequence node made of the given items.
    pub fn sequence(items: Vec<Node>) -> (node: Node)
        ensures
            node@ == NodeView::Sequence(views_of(items@)),
    {
        proof {
            Self::lemma_sequence_view(items);
        }
        Node::Sequence(items)
    }

    /// A mapping node made of the given entries.
    pub fn mapping(entries: Vec<(String, Node)>) -> (node: Node)
        ensures
            node@ == NodeView::Mapping(entry_views_of(entries@)),
    {
        proof {
            Self::lemma_mapping_view(entries);
        }
        Node::Mapping(entries)
    }

    /// The items of a sequence node are the values of the nodes it was made of.
    pub proof fn lemma_sequence_view(items: Vec<Node>)
        ensures
            Node::Sequence(items)@ == NodeView::Sequence(views_of(items@)),
    {
        reveal_with_fuel(node_view, 2);
        let shown = Node::Sequence(items)@->Sequence_0;
        assert(shown.len() == items@.len());
        assert forall|i: int| 0 <= i < shown.len() implies shown[i] == views_of(items@)[i] by {
            assert(shown[i] == node_view(items@[i]));
        }
        assert(shown =~= views_of(items@));
    }

    /// The entries of a mapping node are the values of the entries it was made of.
    pub proof fn lemma_mapping_view(entries: Vec<(String, Node)>)
        ensures
            Node::Mapping(entries)@ == NodeView::Mapping(entry_views_of(entries@)),
    {
        reveal_with_fuel(node_view, 2);
        let shown = Node::Mapping(entries)@->Mapping_0;
        assert(shown.len() == entries@.len());
        assert forall|i: int| 0 <= i < shown.len() implies shown[i] == entry_views_of(
            entries@,
        )[i] by {
            assert(shown[i] == (entries@[i].0@, node_view(entries@[i].1)));
        }
        assert(shown =~= entry_views_of(entries@));
    }

    /// Tells whether this node is the absence marker.
    pub fn is_absent(&self) -> (absent: bool)
        ensures
            absent <==> self@ == NodeView::Absent,
    {
        match self {
            Node::Absent => true,
            _ => false,
        }
    }
}

} // verus!
