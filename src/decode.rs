//! Decoding: document tree to generic value.
use vstd::prelude::*;
use crate::document::{
    entries_view, nodes_view, DocModel, Document, Entry, EntryModel,
    LitModel, Literal, Node, NodeModel,
};
use crate::value::{strings_view, values_view, ValModel, Value};

verus! {

/// The key under which a node's entries stand when it also has children.
pub open spec fn entries_key() -> Seq<char> {
    "entries"@
}

/// The key under which a node's children stand when it also has entries.
pub open spec fn children_key() -> Seq<char> {
    "children"@
}

/// The value of a scalar literal; the radix of an integer is dropped.
pub open spec fn literal_value(l: LitModel) -> ValModel {
    match l {
        LitModel::Str(s) => ValModel::Str(s),
        LitModel::RawStr(s) => ValModel::Str(s),
        LitModel::Int(i, _) => ValModel::Int(i),
        LitModel::Float(f) => ValModel::Float(f),
        LitModel::Bool(b) => ValModel::Bool(b),
        LitModel::Null => ValModel::Nothing,
    }
}

/// A positional entry is its bare value; a property is a one-key record.
pub open spec fn entry_value(e: EntryModel) -> ValModel {
    match e.name {
        Some(n) => ValModel::Record(seq![n], seq![literal_value(e.value)]),
        None => literal_value(e.value),
    }
}

pub open spec fn entry_values(s: Seq<EntryModel>) -> Seq<ValModel> {
    s.map_values(|e: EntryModel| entry_value(e))
}

/// Entry values of a node without children: nothing, the single value, or a list.
pub open spec fn collapse(vals: Seq<ValModel>) -> ValModel {
    if vals.len() == 0 {
        ValModel::Nothing
    } else if vals.len() == 1 {
        vals[0]
    } else {
        ValModel::List(vals)
    }
}

/// Entry values of a node that also has children: the single value, or a list.
pub open spec fn entries_field(vals: Seq<ValModel>) -> ValModel {
    if vals.len() == 1 {
        vals[0]
    } else {
        ValModel::List(vals)
    }
}

pub open spec fn node_names(s: Seq<NodeModel>) -> Seq<Seq<char>> {
    s.map_values(|n: NodeModel| n.name)
}

/// The values of the first `k` nodes of `d`.
pub open spec fn node_values(d: DocModel, k: int) -> Seq<ValModel>
    decreases d, k,
{
    if k <= 0 || k > d.nodes.len() {
        Seq::empty()
    } else {
        node_values(d, k - 1).push(node_value(d.nodes[k - 1]))
    }
}

/// The value of one node, by its entry count and whether it has children.
pub open spec fn node_value(n: NodeModel) -> ValModel
    decreases n, 0int,
{
    match n.children {
        None => collapse(entry_values(n.entries)),
        Some(c) => {
            let cv = document_value(c);
            if n.entries.len() == 0 {
                cv
            } else {
                ValModel::Record(
                    seq![entries_key(), children_key()],
                    seq![entries_field(entry_values(n.entries)), cv],
                )
            }
        },
    }
}

/// The value of a document: a record keyed by node names, in node order.
pub open spec fn document_value(d: DocModel) -> ValModel
    decreases d, d.nodes.len() + 1,
{
    ValModel::Record(node_names(d.nodes), node_values(d, d.nodes.len() as int))
}

pub proof fn lemma_node_values(d: DocModel, k: int)
    requires
        0 <= k <= d.nodes.len(),
    ensures
        node_values(d, k).len() == k,
        forall|j: int| 0 <= j < k ==> #[trigger] node_values(d, k)[j] == node_value(d.nodes[j]),
    decreases k,
{
    if k > 0 {
        lemma_node_values(d, k - 1);
    }
}

pub proof fn lemma_values_view(s: Vec<Value>, k: int)
    requires
        0 <= k <= s.len(),
    ensures
        values_view(s, k).len() == k,
        forall|j: int| 0 <= j < k ==> #[trigger] values_view(s, k)[j] == s[j]@,
    decreases k,
{
    if k > 0 {
        lemma_values_view(s, k - 1);
    }
}

pub proof fn lemma_nodes_view(s: Vec<Node>, k: int)
    requires
        0 <= k <= s.len(),
    ensures
        nodes_view(s, k).len() == k,
        forall|j: int| 0 <= j < k ==> #[trigger] nodes_view(s, k)[j] == s[j]@,
    decreases k,
{
    if k > 0 {
        lemma_nodes_view(s, k - 1);
    }
}

/// Decodes a scalar literal.
pub fn decode_literal(l: &Literal) -> (r: Value)
    ensures
        r@ == literal_value(l@),
{
    match l {
        Literal::Str(s) => Value::String(s.clone()),
        Literal::RawStr(s) => Value::String(s.clone()),
        Literal::Int(i, _) => Value::Int(*i),
        Literal::Float(f) => Value::Float(*f),
        Literal::Bool(b) => Value::Bool(*b),
        Literal::Null => Value::Nothing,
    }
}

/// Decodes one entry of a node.
pub fn decode_entry(e: &Entry) -> (r: Value)
    ensures
        r@ == entry_value(e@),
{
    let v = decode_literal(&e.value);
    match &e.name {
        Some(n) => {
            let r = Value::Record { cols: vec![n.clone()], vals: vec![v] };
            proof {
                lemma_values_view(r->vals, 1);
                assert(values_view(r->vals, 1) =~= seq![literal_value(e@.value)]);
                assert(strings_view(r->cols@) =~= seq![n@]);
            }
            r
        },
        None => v,
    }
}

/// Decodes the entries of a node, in order.
fn decode_entries(es: &Vec<Entry>) -> (r: Vec<Value>)
    ensures
        r.len() == es.len(),
        values_view(r, r.len() as int) == entry_values(entries_view(es@)),
{
    let mut r: Vec<Value> = Vec::new();
    let mut i: usize = 0;
    while i < es.len()
        invariant
            i <= es.len(),
            r.len() == i,
            forall|j: int| 0 <= j < i ==> #[trigger] r[j]@ == entry_value(es[j]@),
        decreases es.len() - i,
    {
        let v = decode_entry(&es[i]);
        r.push(v);
        i += 1;
    }
    proof {
        lemma_values_view(r, r.len() as int);
        assert(values_view(r, r.len() as int) =~= entry_values(entries_view(es@)));
    }
    r
}

/// Decodes one node: no entries and no children give nothing, entries alone
/// collapse to one value or a list, children alone give their record, and
/// both give an `entries` / `children` record.
pub fn decode_node(n: &Node) -> (r: Value)
    ensures
        r@ == node_value(n@),
    decreases n, 0int,
{
    let mut ev = decode_entries(&n.entries);
    match &n.children {
        None => {
            if ev.len() == 0 {
                Value::Nothing
            } else if ev.len() == 1 {
                proof {
                    lemma_values_view(ev, 1);
                }
                ev.pop().unwrap()
            } else {
                Value::List(ev)
            }
        },
        Some(c) => {
            let cv = decode_document(c);
            if ev.len() == 0 {
                cv
            } else {
                let ghost evs = values_view(ev, ev.len() as int);
                proof {
                    lemma_values_view(ev, ev.len() as int);
                }
                let e = if ev.len() == 1 {
                    ev.pop().unwrap()
                } else {
                    Value::List(ev)
                };
                assert(e@ == entries_field(evs));
                let r = Value::Record {
                    cols: vec!["entries".to_string(), "children".to_string()],
                    vals: vec![e, cv],
                };
                proof {
                    lemma_values_view(r->vals, 2);
                    assert(values_view(r->vals, 2) =~= seq![entries_field(evs), cv@]);
                    assert(strings_view(r->cols@) =~= seq![entries_key(), children_key()]);
                }
                r
            }
        },
    }
}

/// Decodes a document into a record keyed by node names, in node order.
pub fn decode_document(d: &Document) -> (r: Value)
    ensures
        r@ == document_value(d@),
    decreases d, 1int,
{
    let mut cols: Vec<String> = Vec::new();
    let mut vals: Vec<Value> = Vec::new();
    let mut i: usize = 0;
    proof {
        lemma_nodes_view(d.nodes, d.nodes.len() as int);
    }
    while i < d.nodes.len()
        invariant
            i <= d.nodes.len(),
            cols.len() == i,
            vals.len() == i,
            d@.nodes == nodes_view(d.nodes, d.nodes.len() as int),
            d@.nodes.len() == d.nodes.len(),
            forall|j: int| 0 <= j < d.nodes.len() ==> #[trigger] d@.nodes[j] == d.nodes[j]@,
            forall|j: int| 0 <= j < i ==> #[trigger] cols[j]@ == d@.nodes[j].name,
            forall|j: int| 0 <= j < i ==> #[trigger] vals[j]@ == node_value(d@.nodes[j]),
        decreases d.nodes.len() - i,
    {
        cols.push(d.nodes[i].name.clone());
        let v = decode_node(&d.nodes[i]);
        vals.push(v);
        i += 1;
    }
    proof {
        lemma_values_view(vals, vals.len() as int);
        lemma_node_values(d@, d@.nodes.len() as int);
        assert(values_view(vals, vals.len() as int) =~= node_values(d@, d@.nodes.len() as int));
        assert(strings_view(cols@) =~= node_names(d@.nodes));
    }
    Value::Record { cols, vals }
}

} // verus!
