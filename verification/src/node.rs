//! The produced syntax tree.
//!
//! A [`Node`] carries the display name of the rule that produced it, the span
//! of input it covers, and either its ordered children or — for a rule
//! flagged `raw` — the exact matched text.

use crate::input::Position;
use crate::input::Range;
use vstd::prelude::*;
use vstd::string::StringExecFns;

verus! {

/// One node of the produced tree.
#[derive(Debug)]
pub struct Node {
    pub node_type: String,
    pub loc: Range,
    pub data: NodeData,
}

/// The payload of a node: its children, or the raw matched text.
#[derive(Debug)]
pub enum NodeData {
    Children(Vec<Node>),
    Raw(String),
}

/// The mathematical value of a whole tree node.
pub ghost struct SpecNode {
    pub name: Seq<char>,
    pub start: Position,
    pub end: Position,
    pub data: SpecNodeData,
}

/// The mathematical payload of a node.
pub ghost enum SpecNodeData {
    Children(Seq<SpecNode>),
    Raw(Seq<char>),
}

impl Node {
    /// The mathematical value of the node, children included.
    pub open spec fn deep(&self) -> SpecNode
        decreases *self,
    {
        SpecNode {
            name: self.node_type@,
            start: self.loc.0,
            end: self.loc.1,
            data: match &self.data {
                NodeData::Children(c) => SpecNodeData::Children(
                    Seq::new(
                        c@.len(),
                        |i: int|
                            if 0 <= i < c@.len() {
                                c@[i].deep()
                            } else {
                                SpecNode {
                                    name: Seq::empty(),
                                    start: Position(0, 0, 0),
                                    end: Position(0, 0, 0),
                                    data: SpecNodeData::Raw(Seq::empty()),
                                }
                            },
                    ),
                ),
                NodeData::Raw(s) => SpecNodeData::Raw(s@),
            },
        }
    }

    pub fn new(node_type: &str, loc: Range, data: NodeData) -> (r: Node)
        ensures
            r.deep() == (SpecNode {
                name: node_type@,
                start: loc.0,
                end: loc.1,
                data: spec_node_data(data),
            }),
    {
        let r = Node { node_type: String::from_str(node_type), loc, data };
        proof {
            lemma_deep_data(&r);
        }
        r
    }
}

/// A node's deep payload is the deep value of its payload field.
pub proof fn lemma_deep_data(n: &Node)
    ensures
        n.deep().data == spec_node_data(n.data),
{
    match &n.data {
        NodeData::Children(c) => {
            assert(n.deep().data->Children_0 =~= nodes_deep(c@));
        },
        NodeData::Raw(_) => {
        },
    }
}

/// The mathematical value of a payload.
pub open spec fn spec_node_data(data: NodeData) -> SpecNodeData {
    match data {
        NodeData::Children(c) => SpecNodeData::Children(nodes_deep(c@)),
        NodeData::Raw(s) => SpecNodeData::Raw(s@),
    }
}

/// The mathematical values of a list of nodes.
pub open spec fn nodes_deep(s: Seq<Node>) -> Seq<SpecNode> {
    Seq::new(s.len(), |i: int| s[i].deep())
}

/// Relies on String::push: it appends exactly the given character.
#[verifier::external_body]
pub(crate) fn push_char(s: &mut String, c: char)
    ensures
        final(s)@ == old(s)@.push(c),
{
    s.push(c);
}

/// The characters of a slice gathered into an owned string.
pub fn chars_to_string(sl: &[char]) -> (r: String)
    ensures
        r@ == sl@,
{
    let mut r = String::new();
    let mut i: usize = 0;
    while i < sl.len()
        invariant
            i <= sl@.len(),
            r@ == sl@.subrange(0, i as int),
        decreases sl@.len() - i,
    {
        push_char(&mut r, sl[i]);
        assert(r@ =~= sl@.subrange(0, i + 1));
        i += 1;
    }
    assert(r@ =~= sl@);
    r
}

pub proof fn lemma_nodes_deep_push(s: Seq<Node>, n: Node)
    ensures
        nodes_deep(s.push(n)) =~= nodes_deep(s).push(n.deep()),
{
}

pub proof fn lemma_nodes_deep_concat(s: Seq<Node>, t: Seq<Node>)
    ensures
        nodes_deep(s + t) =~= nodes_deep(s) + nodes_deep(t),
{
}

} // verus!
