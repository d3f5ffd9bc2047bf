//! The document tree model: documents, nodes, entries and scalar literals.
use vstd::prelude::*;

verus! {

/// The textual base an integer literal was written in.
#[derive(Clone, Copy, PartialEq, Eq, Structural, Debug)]
pub enum Radix {
    Binary,
    Octal,
    Decimal,
    Hex,
}

/// Mathematical model of a [`Literal`].
pub enum LitModel {
    Str(Seq<char>),
    RawStr(Seq<char>),
    Int(i64, Radix),
    Float(u64),
    Bool(bool),
    Null,
}

/// A scalar literal of a document.
#[derive(Clone, Debug, PartialEq)]
pub enum Literal {
    Str(String),
    RawStr(String),
    Int(i64, Radix),
    /// A float, held as its IEEE-754 bit pattern.
    Float(u64),
    Bool(bool),
    Null,
}

pub ghost struct EntryModel {
    pub name: Option<Seq<char>>,
    pub value: LitModel,
}

/// An attribute of a node: a positional argument when `name` is `None`,
/// a property otherwise.
#[derive(Clone, Debug, PartialEq)]
pub struct Entry {
    pub name: Option<String>,
    pub value: Literal,
}

pub ghost struct NodeModel {
    pub name: Seq<char>,
    pub entries: Seq<EntryModel>,
    pub children: Option<DocModel>,
}

/// A named node with ordered entries and an optional nested document.
#[derive(Debug, PartialEq)]
pub struct Node {
    pub name: String,
    pub entries: Vec<Entry>,
    pub children: Option<Document>,
}

pub ghost struct DocModel {
    pub nodes: Seq<NodeModel>,
}

/// An ordered sequence of nodes.
#[derive(Debug, PartialEq)]
pub struct Document {
    pub nodes: Vec<Node>,
}

pub open spec fn literal_view(l: Literal) -> LitModel {
    match l {
        Literal::Str(s) => LitModel::Str(s@),
        Literal::RawStr(s) => LitModel::RawStr(s@),
        Literal::Int(i, r) => LitModel::Int(i, r),
        Literal::Float(f) => LitModel::Float(f),
        Literal::Bool(b) => LitModel::Bool(b),
        Literal::Null => LitModel::Null,
    }
}

impl View for Literal {
    type V = LitModel;

    open spec fn view(&self) -> LitModel {
        literal_view(*self)
    }
}

impl View for Entry {
    type V = EntryModel;

    open spec fn view(&self) -> EntryModel {
        EntryModel {
            name: match self.name {
                Some(n) => Some(n@),
                None => None,
            },
            value: self.value@,
        }
    }
}

pub open spec fn entries_view(s: Seq<Entry>) -> Seq<EntryModel> {
    s.map_values(|e: Entry| e@)
}

/// The models of the first `n` nodes of `s`.
pub open spec fn nodes_view(s: Vec<Node>, n: int) -> Seq<NodeModel>
    decreases s, n,
{
    if n <= 0 || n > s.len() {
        Seq::empty()
    } else {
        nodes_view(s, n - 1).push(node_view(s[n - 1]))
    }
}

pub open spec fn node_view(n: Node) -> NodeModel
    decreases n, 0int,
{
    NodeModel {
        name: n.name@,
        entries: entries_view(n.entries@),
        children: match n.children {
            Some(d) => Some(document_view(d)),
            None => None,
        },
    }
}

pub open spec fn document_view(d: Document) -> DocModel
    decreases d, 0int,
{
    DocModel { nodes: nodes_view(d.nodes, d.nodes.len() as int) }
}

impl View for Node {
    type V = NodeModel;

    open spec fn view(&self) -> NodeModel {
        node_view(*self)
    }
}

impl View for Document {
    type V = DocModel;

    open spec fn view(&self) -> DocModel {
        document_view(*self)
    }
}

} // verus!
