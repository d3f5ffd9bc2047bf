//! Encoding: generic value to document tree.
use vstd::prelude::*;
use crate::decode::{children_key, entries_key, lemma_nodes_view, lemma_values_view};
use crate::document::{
    entries_view, DocModel, Document, Entry, EntryModel, LitModel, Literal,
    Node, NodeModel, Radix,
};
use crate::error::ErrorKind;
use crate::value::{strings_view, values_view, ValModel, Value};

verus! {

/// The literal of a scalar; integers are written in decimal.
pub open spec fn scalar_literal(v: ValModel) -> Result<LitModel, ErrorKind> {
    match v {
        ValModel::Str(s) => Ok(LitModel::Str(s)),
        ValModel::Int(i) => Ok(LitModel::Int(i, Radix::Decimal)),
        ValModel::Float(f) => Ok(LitModel::Float(f)),
        ValModel::Bool(b) => Ok(LitModel::Bool(b)),
        ValModel::Nothing => Ok(LitModel::Null),
        _ => Err(ErrorKind::UnsupportedValueType),
    }
}

/// The entry of a value: a one-key record gives a property, a scalar a
/// positional argument.
pub open spec fn entry_of(v: ValModel) -> Result<EntryModel, ErrorKind> {
    match v {
        ValModel::Record(cols, vals) => {
            if cols.len() != 1 {
                Err(ErrorKind::InvalidEntryShape)
            } else if vals.len() == 0 {
                Err(ErrorKind::MissingKey)
            } else {
                match scalar_literal(vals[0]) {
                    Ok(l) => Ok(EntryModel { name: Some(cols[0]), value: l }),
                    Err(e) => Err(e),
                }
            }
        },
        _ => match scalar_literal(v) {
            Ok(l) => Ok(EntryModel { name: None, value: l }),
            Err(e) => Err(e),
        },
    }
}

/// The entries of the first `k` values of `s`, or the error of the first
/// value that has none.
pub open spec fn entries_of(s: Seq<ValModel>, k: int) -> Result<Seq<EntryModel>, ErrorKind>
    decreases k,
{
    if k <= 0 {
        Ok(Seq::empty())
    } else {
        match entries_of(s, k - 1) {
            Err(e) => Err(e),
            Ok(es) => match entry_of(s[k - 1]) {
                Ok(x) => Ok(es.push(x)),
                Err(e) => Err(e),
            },
        }
    }
}

/// The entries that a node's value gives: a list one per element, any
/// other value one.
pub open spec fn entries_from(v: ValModel) -> Result<Seq<EntryModel>, ErrorKind> {
    match v {
        ValModel::List(items) => entries_of(items, items.len() as int),
        _ => match entry_of(v) {
            Ok(x) => Ok(seq![x]),
            Err(e) => Err(e),
        },
    }
}

/// The index of the last of the first `k` keys equal to `key`, or -1.
pub open spec fn lookup_index(cols: Seq<Seq<char>>, k: int, key: Seq<char>) -> int
    decreases k,
{
    if k <= 0 {
        -1
    } else if cols[k - 1] == key {
        k - 1
    } else {
        lookup_index(cols, k - 1, key)
    }
}

/// The index of the value of `key` in a record: its last occurrence among
/// the keys that have a value, or -1.
pub open spec fn record_index(cols: Seq<Seq<char>>, vals: Seq<ValModel>, key: Seq<char>) -> int {
    let m = if cols.len() <= vals.len() {
        cols.len()
    } else {
        vals.len()
    };
    lookup_index(cols, m as int, key)
}

/// Whether the keys are exactly `entries` and `children`, in either order.
pub open spec fn is_marker(cols: Seq<Seq<char>>) -> bool {
    cols.len() == 2 && ((cols[0] == entries_key() && cols[1] == children_key()) || (cols[0]
        == children_key() && cols[1] == entries_key()))
}

/// The number of keys of a record; zero for any other value.
pub open spec fn width(v: ValModel) -> int {
    match v {
        ValModel::Record(cols, _) => cols.len() as int,
        _ => 0,
    }
}

/// The node that `name` and a value give, by the shape of the value.
pub open spec fn node_of(name: Seq<char>, v: ValModel) -> Result<NodeModel, ErrorKind>
    decreases v, width(v) + 2,
{
    match v {
        ValModel::Nothing => Ok(NodeModel { name, entries: Seq::empty(), children: None }),
        ValModel::List(items) => match entries_of(items, items.len() as int) {
            Ok(es) => Ok(NodeModel { name, entries: es, children: None }),
            Err(e) => Err(e),
        },
        ValModel::Record(cols, vals) => {
            if is_marker(cols) {
                let ei = record_index(cols, vals, entries_key());
                let ci = record_index(cols, vals, children_key());
                if !(0 <= ei < vals.len()) || !(0 <= ci < vals.len()) {
                    Err(ErrorKind::MissingKey)
                } else {
                    match entries_from(vals[ei]) {
                        Err(e) => Err(e),
                        Ok(es) => match document_of(vals[ci]) {
                            Err(e) => Err(e),
                            Ok(c) => Ok(NodeModel { name, entries: es, children: Some(c) }),
                        },
                    }
                }
            } else {
                match document_of(v) {
                    Ok(c) => Ok(NodeModel { name, entries: Seq::empty(), children: Some(c) }),
                    Err(e) => Err(e),
                }
            }
        },
        _ => match scalar_literal(v) {
            Ok(l) => Ok(
                NodeModel {
                    name,
                    entries: seq![EntryModel { name: None, value: l }],
                    children: None,
                },
            ),
            Err(e) => Err(e),
        },
    }
}

/// The nodes of the first `k` keys of a record, or the first error.
pub open spec fn nodes_of(v: ValModel, k: int) -> Result<Seq<NodeModel>, ErrorKind>
    decreases v, k,
{
    match v {
        ValModel::Record(cols, vals) => {
            if k <= 0 || k > cols.len() {
                Ok(Seq::empty())
            } else {
                match nodes_of(v, k - 1) {
                    Err(e) => Err(e),
                    Ok(ns) => {
                        let j = record_index(cols, vals, cols[k - 1]);
                        if 0 <= j < vals.len() {
                            match node_of(cols[k - 1], vals[j]) {
                                Ok(n) => Ok(ns.push(n)),
                                Err(e) => Err(e),
                            }
                        } else {
                            Err(ErrorKind::MissingKey)
                        }
                    },
                }
            }
        },
        _ => Ok(Seq::empty()),
    }
}

/// The document of a record: one node per key, in key order.
pub open spec fn document_of(v: ValModel) -> Result<DocModel, ErrorKind>
    decreases v, width(v) + 1,
{
    match v {
        ValModel::Record(cols, _) => match nodes_of(v, cols.len() as int) {
            Ok(ns) => Ok(DocModel { nodes: ns }),
            Err(e) => Err(e),
        },
        _ => Err(ErrorKind::NotARecord),
    }
}

pub open spec fn literal_result(r: Result<Literal, ErrorKind>) -> Result<LitModel, ErrorKind> {
    match r {
        Ok(l) => Ok(l@),
        Err(e) => Err(e),
    }
}

pub open spec fn entry_result(r: Result<Entry, ErrorKind>) -> Result<EntryModel, ErrorKind> {
    match r {
        Ok(x) => Ok(x@),
        Err(e) => Err(e),
    }
}

pub open spec fn entries_result(r: Result<Vec<Entry>, ErrorKind>) -> Result<
    Seq<EntryModel>,
    ErrorKind,
> {
    match r {
        Ok(x) => Ok(entries_view(x@)),
        Err(e) => Err(e),
    }
}

pub open spec fn node_result(r: Result<Node, ErrorKind>) -> Result<NodeModel, ErrorKind> {
    match r {
        Ok(x) => Ok(x@),
        Err(e) => Err(e),
    }
}

pub open spec fn document_result(r: Result<Document, ErrorKind>) -> Result<DocModel, ErrorKind> {
    match r {
        Ok(x) => Ok(x@),
        Err(e) => Err(e),
    }
}

/// Once the entries of a prefix fail, every longer prefix fails the same way.
pub proof fn lemma_entries_of_err(s: Seq<ValModel>, k: int, n: int)
    requires
        0 <= k <= n,
        entries_of(s, k) is Err,
    ensures
        entries_of(s, n) == entries_of(s, k),
    decreases n - k,
{
    if k < n {
        lemma_entries_of_err(s, k, n - 1);
    }
}

/// Once the nodes of a prefix fail, every longer prefix fails the same way.
pub proof fn lemma_nodes_of_err(v: ValModel, k: int, n: int)
    requires
        0 <= k <= n <= width(v),
        nodes_of(v, k) is Err,
    ensures
        nodes_of(v, n) == nodes_of(v, k),
    decreases n - k,
{
    if k < n {
        lemma_nodes_of_err(v, k, n - 1);
    }
}

/// Encodes a scalar as a literal.
pub fn encode_literal(v: &Value) -> (r: Result<Literal, ErrorKind>)
    ensures
        literal_result(r) == scalar_literal(v@),
{
    match v {
        Value::String(s) => Ok(Literal::Str(s.clone())),
        Value::Int(i) => Ok(Literal::Int(*i, Radix::Decimal)),
        Value::Float(f) => Ok(Literal::Float(*f)),
        Value::Bool(b) => Ok(Literal::Bool(*b)),
        Value::Nothing => Ok(Literal::Null),
        _ => Err(ErrorKind::UnsupportedValueType),
    }
}

/// Encodes a value as an entry: a one-key record gives a property, a
/// scalar a positional argument.
pub fn encode_entry(v: &Value) -> (r: Result<Entry, ErrorKind>)
    ensures
        entry_result(r) == entry_of(v@),
{
    match v {
        Value::Record { cols, vals } => {
            if cols.len() != 1 {
                Err(ErrorKind::InvalidEntryShape)
            } else if vals.len() == 0 {
                Err(ErrorKind::MissingKey)
            } else {
                proof {
                    lemma_values_view(*vals, vals.len() as int);
                }
                match encode_literal(&vals[0]) {
                    Ok(l) => Ok(Entry { name: Some(cols[0].clone()), value: l }),
                    Err(e) => Err(e),
                }
            }
        },
        _ => match encode_literal(v) {
            Ok(l) => Ok(Entry { name: None, value: l }),
            Err(e) => Err(e),
        },
    }
}

/// Encodes each value as an entry, in order; fails with the error of the
/// first value that is no entry.
pub fn encode_entries(items: &Vec<Value>) -> (r: Result<Vec<Entry>, ErrorKind>)
    ensures
        entries_result(r) == entries_of(values_view(*items, items.len() as int), items.len() as int),
{
    let ghost s = values_view(*items, items.len() as int);
    proof {
        lemma_values_view(*items, items.len() as int);
    }
    let mut r: Vec<Entry> = Vec::new();
    let mut i: usize = 0;
    assert(entries_view(r@) =~= Seq::<EntryModel>::empty());
    while i < items.len()
        invariant
            i <= items.len(),
            s == values_view(*items, items.len() as int),
            s.len() == items.len(),
            forall|j: int| 0 <= j < items.len() ==> #[trigger] s[j] == items[j]@,
            entries_of(s, i as int) == Ok::<Seq<EntryModel>, ErrorKind>(entries_view(r@)),
        decreases items.len() - i,
    {
        match encode_entry(&items[i]) {
            Ok(x) => {
                let ghost before = r@;
                r.push(x);
                assert(entries_view(r@) =~= entries_view(before).push(x@));
            },
            Err(e) => {
                proof {
                    lemma_entries_of_err(s, i + 1, items.len() as int);
                }
                return Err(e);
            },
        }
        i += 1;
    }
    Ok(r)
}

/// A found index, or -1.
pub open spec fn index_of(r: Option<usize>) -> int {
    match r {
        Some(j) => j as int,
        None => -1,
    }
}

/// Finds the value index of `key` in a record: the last of the first `m`
/// keys equal to it.
fn find_key(cols: &Vec<String>, m: usize, key: &String) -> (r: Option<usize>)
    requires
        m <= cols.len(),
    ensures
        index_of(r) == lookup_index(strings_view(cols@), m as int, key@),
        r matches Some(j) ==> j < m,
{
    let mut k: usize = m;
    while k > 0
        invariant
            k <= m <= cols.len(),
            lookup_index(strings_view(cols@), m as int, key@) == lookup_index(
                strings_view(cols@),
                k as int,
                key@,
            ),
        decreases k,
    {
        if cols[k - 1] == *key {
            return Some(k - 1);
        }
        k -= 1;
    }
    None
}

/// Encodes a node's value as entries: a list gives one per element, any
/// other value one.
fn encode_entries_from(v: &Value) -> (r: Result<Vec<Entry>, ErrorKind>)
    ensures
        entries_result(r) == entries_from(v@),
{
    match v {
        Value::List(items) => {
            proof {
                lemma_values_view(*items, items.len() as int);
            }
            encode_entries(items)
        },
        _ => match encode_entry(v) {
            Ok(x) => {
                let r = vec![x];
                assert(!(v@ is List));
                assert(entries_view(r@) =~= seq![x@]);
                Ok(r)
            },
            Err(e) => Err(e),
        },
    }
}
/// Encodes `name` and a value as a node: nothing gives a bare node, a
/// scalar one positional entry, a list one entry per element, an
/// `entries` / `children` record both, and any other record children.
pub fn encode_node(name: &String, v: &Value) -> (r: Result<Node, ErrorKind>)
    ensures
        node_result(r) == node_of(name@, v@),
    decreases v, 2int,
{
    match v {
        Value::Nothing => {
            let n = Node { name: name.clone(), entries: Vec::new(), children: None };
            assert(entries_view(n.entries@) =~= Seq::<EntryModel>::empty());
            Ok(n)
        },
        Value::List(items) => {
            proof {
                lemma_values_view(*items, items.len() as int);
            }
            match encode_entries(items) {
                Ok(es) => Ok(Node { name: name.clone(), entries: es, children: None }),
                Err(e) => Err(e),
            }
        },
        Value::Record { cols, vals } => {
            let ek = "entries".to_string();
            let ck = "children".to_string();
            let marker = cols.len() == 2 && ((cols[0] == ek && cols[1] == ck) || (cols[0] == ck
                && cols[1] == ek));
            proof {
                lemma_values_view(*vals, vals.len() as int);
            }
            if marker {
                let m = if cols.len() <= vals.len() {
                    cols.len()
                } else {
                    vals.len()
                };
                let ei = find_key(cols, m, &ek);
                let ci = find_key(cols, m, &ck);
                match (ei, ci) {
                    (Some(ei), Some(ci)) => match encode_entries_from(&vals[ei]) {
                        Err(e) => Err(e),
                        Ok(es) => match encode_document(&vals[ci]) {
                            Err(e) => Err(e),
                            Ok(c) => Ok(Node { name: name.clone(), entries: es, children: Some(c) }),
                        },
                    },
                    _ => Err(ErrorKind::MissingKey),
                }
            } else {
                match encode_document(v) {
                    Ok(c) => {
                        let n = Node { name: name.clone(), entries: Vec::new(), children: Some(c) };
                        assert(entries_view(n.entries@) =~= Seq::<EntryModel>::empty());
                        Ok(n)
                    },
                    Err(e) => Err(e),
                }
            }
        },
        _ => match encode_literal(v) {
            Ok(l) => {
                let n = Node {
                    name: name.clone(),
                    entries: vec![Entry { name: None, value: l }],
                    children: None,
                };
                assert(entries_view(n.entries@) =~= seq![EntryModel { name: None, value: l@ }]);
                Ok(n)
            },
            Err(e) => Err(e),
        },
    }
}

/// Encodes a record as a document: one node per key, in key order.
/// Anything but a record is refused.
pub fn encode_document(v: &Value) -> (r: Result<Document, ErrorKind>)
    ensures
        document_result(r) == document_of(v@),
    decreases v, 1int,
{
    match v {
        Value::Record { cols, vals } => {
            proof {
                lemma_values_view(*vals, vals.len() as int);
            }
            let m = if cols.len() <= vals.len() {
                cols.len()
            } else {
                vals.len()
            };
            let mut nodes: Vec<Node> = Vec::new();
            let mut i: usize = 0;
            while i < cols.len()
                invariant
                    *v == (Value::Record { cols: *cols, vals: *vals }),
                    i <= cols.len(),
                    nodes.len() == i,
                    m <= cols.len(),
                    m <= vals.len(),
                    m == cols.len() || m == vals.len(),
                    v@ == ValModel::Record(strings_view(cols@), values_view(*vals, vals.len() as int)),
                    values_view(*vals, vals.len() as int).len() == vals.len(),
                    forall|j: int| 0 <= j < vals.len() ==> #[trigger] values_view(*vals, vals.len() as int)[j] == vals[j]@,
                    match nodes_of(v@, i as int) {
                        Ok(ns) => ns.len() == i && forall|j: int| 0 <= j < i ==> #[trigger] ns[j] == nodes[j]@,
                        Err(_) => false,
                    },
                decreases cols.len() - i,
            {
                match find_key(cols, m, &cols[i]) {
                    None => {
                        proof {
                            lemma_nodes_of_err(v@, i + 1, cols.len() as int);
                        }
                        return Err(ErrorKind::MissingKey);
                    },
                    Some(j) => match encode_node(&cols[i], &vals[j]) {
                        Ok(n) => {
                            nodes.push(n);
                        },
                        Err(e) => {
                            proof {
                                lemma_nodes_of_err(v@, i + 1, cols.len() as int);
                            }
                            return Err(e);
                        },
                    },
                }
                i += 1;
            }
            let d = Document { nodes };
            proof {
                lemma_nodes_view(d.nodes, d.nodes.len() as int);
                let ns = nodes_of(v@, cols.len() as int)->Ok_0;
                assert(d@.nodes =~= ns);
            }
            Ok(d)
        },
        _ => Err(ErrorKind::NotARecord),
    }
}

} // verus!
