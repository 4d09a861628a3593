//! The token tree: what a parsed document looks like before any field has
//! been given a type.

use vstd::prelude::*;

verus! {

/// A node of the token tree.
#[derive(Debug)]
pub enum Node {
    /// The raw text of one scalar token, without surrounding quotes.
    Scalar(Vec<u8>),
    /// A block of values, in the order written.
    Array(Vec<Node>),
    /// A block of `key = value` pairs, in the order written; a key may occur
    /// more than once.
    Object(Vec<Entry>),
}

/// One `key = value` pair of an object.
#[derive(Debug)]
pub struct Entry {
    pub key: Vec<u8>,
    pub node: Node,
}

/// The mathematical value of a [`Node`].
pub enum NodeView {
    Scalar(Seq<u8>),
    Array(Seq<NodeView>),
    Object(Seq<EntryView>),
}

/// The mathematical value of an [`Entry`].
pub struct EntryView {
    pub key: Seq<u8>,
    pub node: NodeView,
}

/// The mathematical value of a node.
pub open spec fn node_view(node: Node) -> NodeView
    decreases node,
{
    match node {
        Node::Scalar(raw) => NodeView::Scalar(raw@),
        Node::Array(items) => NodeView::Array(
            Seq::new(
                items@.len(),
                |i: int|
                    if 0 <= i < items@.len() {
                        node_view(items@[i])
                    } else {
                        arbitrary()
                    },
            ),
        ),
        Node::Object(entries) => NodeView::Object(
            Seq::new(
                entries@.len(),
                |i: int|
                    if 0 <= i < entries@.len() {
                        entry_view(entries@[i])
                    } else {
                        arbitrary()
                    },
            ),
        ),
    }
}

/// The mathematical value of an entry.
pub open spec fn entry_view(entry: Entry) -> EntryView
    decreases entry,
{
    EntryView { key: entry.key@, node: node_view(entry.node) }
}

/// The mathematical values of a run of nodes.
pub open spec fn nodes_view(nodes: Seq<Node>) -> Seq<NodeView> {
    Seq::new(nodes.len(), |i: int| nodes[i]@)
}

/// The mathematical values of a run of entries.
pub open spec fn entries_view(entries: Seq<Entry>) -> Seq<EntryView> {
    Seq::new(entries.len(), |i: int| entries[i]@)
}

/// An array's view holds the views of its items, and an object's view the
/// views of its entries.
pub proof fn lemma_node_view(node: Node)
    ensures
        node matches Node::Array(items) ==> node@ == NodeView::Array(nodes_view(items@)),
        node matches Node::Object(entries) ==> node@ == NodeView::Object(entries_view(entries@)),
{
    match node {
        Node::Array(items) => {
            assert(node@->Array_0 =~= nodes_view(items@));
        },
        Node::Object(entries) => {
            assert(node@->Object_0 =~= entries_view(entries@));
        },
        _ => {},
    }
}

impl View for Node {
    type V = NodeView;

    open spec fn view(&self) -> NodeView {
        node_view(*self)
    }
}

impl View for Entry {
    type V = EntryView;

    open spec fn view(&self) -> EntryView {
        entry_view(*self)
    }
}

impl Node {
    /// A scalar node with the given raw text.
    pub fn scalar(raw: &[u8]) -> (node: Node)
        ensures
            node@ == NodeView::Scalar(raw@),
    {
        Node::Scalar(copy_bytes(raw))
    }
}

impl Entry {
    /// The pair `key = node`.
    pub fn new(key: &[u8], node: Node) -> (entry: Entry)
        ensures
            entry@ == (EntryView { key: key@, node: node@ }),
    {
        Entry { key: copy_bytes(key), node }
    }
}

/// An owned copy of a run of bytes.
pub fn copy_bytes(raw: &[u8]) -> (copy: Vec<u8>)
    ensures
        copy@ == raw@,
{
    let mut copy: Vec<u8> = Vec::new();
    let mut i: usize = 0;
    while i < raw.len()
        invariant
            i <= raw.len(),
            copy@ == raw@.subrange(0, i as int),
        decreases raw.len() - i,
    {
        copy.push(raw[i]);
        i += 1;
        assert(copy@ =~= raw@.subrange(0, i as int));
    }
    assert(raw@.subrange(0, raw.len() as int) =~= raw@);
    copy
}

} // verus!
