//! What holds of decoding and encoding together.
use vstd::prelude::*;
use crate::decode::{
    children_key, document_value, entries_field, entries_key, entry_value, entry_values,
    lemma_node_values, literal_value, node_names, node_value, node_values,
};
use crate::document::{DocModel, EntryModel, LitModel, NodeModel, Radix};
use crate::encode::{
    document_of, entries_from, entries_of, entry_of, is_marker, lookup_index, node_of, nodes_of,
    record_index, scalar_literal,
};
use crate::error::ErrorKind;
use crate::value::ValModel;

verus! {

/// Whether a value is a scalar: nothing, a boolean, an integer, a float or a string.
pub open spec fn is_scalar(v: ValModel) -> bool {
    !(v is List) && !(v is Record)
}

/// A literal as encoding writes it back: raw strings become strings and
/// integers are written in decimal.
pub open spec fn normal_literal(l: LitModel) -> LitModel {
    match l {
        LitModel::RawStr(s) => LitModel::Str(s),
        LitModel::Int(i, _) => LitModel::Int(i, Radix::Decimal),
        _ => l,
    }
}

pub open spec fn normal_entry(e: EntryModel) -> EntryModel {
    EntryModel { name: e.name, value: normal_literal(e.value) }
}

pub open spec fn normal_entries(s: Seq<EntryModel>) -> Seq<EntryModel> {
    s.map_values(|e: EntryModel| normal_entry(e))
}

/// The first `k` nodes of `d`, normalised.
pub open spec fn normal_nodes(d: DocModel, k: int) -> Seq<NodeModel>
    decreases d, k,
{
    if k <= 0 || k > d.nodes.len() {
        Seq::empty()
    } else {
        normal_nodes(d, k - 1).push(normal_node(d.nodes[k - 1]))
    }
}

/// A node with every literal in it normalised.
pub open spec fn normal_node(n: NodeModel) -> NodeModel
    decreases n, 0int,
{
    NodeModel {
        name: n.name,
        entries: normal_entries(n.entries),
        children: match n.children {
            Some(c) => Some(normal_document(c)),
            None => None,
        },
    }
}

/// A document with every literal in it normalised.
pub open spec fn normal_document(d: DocModel) -> DocModel
    decreases d, d.nodes.len() + 1,
{
    DocModel { nodes: normal_nodes(d, d.nodes.len() as int) }
}

/// Whether no two nodes of `d` share a name.
pub open spec fn unique_names(d: DocModel) -> bool {
    forall|i: int, j: int|
        0 <= i < j < d.nodes.len() ==> #[trigger] d.nodes[i].name != #[trigger] d.nodes[j].name
}

/// Whether a node keeps its shape through decoding and encoding: a lone
/// entry of a node without children is positional and not null, a node
/// with children but no entries does not have exactly the children
/// `entries` and `children`, and its children are canonical.
pub open spec fn canonical_node(n: NodeModel) -> bool
    decreases n, 0int,
{
    match n.children {
        None => n.entries.len() == 1 ==> (n.entries[0].name is None && !(n.entries[0].value is Null)),
        Some(c) => (n.entries.len() == 0 ==> !is_marker(node_names(c.nodes))) && canonical_document(c),
    }
}

/// Whether the first `k` nodes of `d` are canonical.
pub open spec fn canonical_nodes(d: DocModel, k: int) -> bool
    decreases d, k,
{
    if k <= 0 || k > d.nodes.len() {
        true
    } else {
        canonical_nodes(d, k - 1) && canonical_node(d.nodes[k - 1])
    }
}

/// Whether a document keeps its shape through decoding and encoding: its
/// node names are distinct and each node is canonical.
pub open spec fn canonical_document(d: DocModel) -> bool
    decreases d, d.nodes.len() + 1,
{
    unique_names(d) && canonical_nodes(d, d.nodes.len() as int)
}

/// Encoding a scalar and decoding the literal gives the scalar back.
pub proof fn law_scalar_round_trip(v: ValModel)
    requires
        is_scalar(v),
    ensures
        scalar_literal(v) is Ok,
        literal_value(scalar_literal(v)->Ok_0) == v,
{
}

/// Decoding a literal and encoding the value gives the literal back, with
/// raw strings as strings and integers in decimal.
pub proof fn law_literal_round_trip(l: LitModel)
    ensures
        scalar_literal(literal_value(l)) == Ok::<LitModel, ErrorKind>(normal_literal(l)),
{
}

/// Decoding an entry and encoding the value gives the entry back, normalised.
pub proof fn law_entry_round_trip(e: EntryModel)
    ensures
        entry_of(entry_value(e)) == Ok::<EntryModel, ErrorKind>(normal_entry(e)),
{
}

/// A record with zero keys or more than one is no entry.
pub proof fn law_entry_arity(cols: Seq<Seq<char>>, vals: Seq<ValModel>)
    requires
        cols.len() != 1,
    ensures
        entry_of(ValModel::Record(cols, vals)) == Err::<EntryModel, ErrorKind>(
            ErrorKind::InvalidEntryShape,
        ),
{
}

/// Decoding a document gives a record whose keys are the node names, in
/// node order, each with the value of its node.
pub proof fn law_document_order(d: DocModel)
    ensures
        document_value(d) is Record,
        document_value(d)->Record_0.len() == d.nodes.len(),
        document_value(d)->Record_1.len() == d.nodes.len(),
        forall|i: int|
            0 <= i < d.nodes.len() ==> #[trigger] document_value(d)->Record_0[i] == d.nodes[i].name
                && document_value(d)->Record_1[i] == node_value(d.nodes[i]),
{
    lemma_node_values(d, d.nodes.len() as int);
}

pub proof fn lemma_keys_differ()
    ensures
        entries_key() != children_key(),
{
    reveal_strlit("entries");
    reveal_strlit("children");
    assert(entries_key().len() != children_key().len());
}

/// With distinct keys, the lookup of a key finds its own index.
pub proof fn lemma_lookup_unique(cols: Seq<Seq<char>>, m: int, k: int)
    requires
        0 <= k < m <= cols.len(),
        forall|i: int, j: int| 0 <= i < j < cols.len() ==> cols[i] != cols[j],
    ensures
        lookup_index(cols, m, cols[k]) == k,
    decreases m,
{
    if m - 1 != k {
        lemma_lookup_unique(cols, m - 1, k);
    }
}

pub proof fn lemma_entries_round_trip(es: Seq<EntryModel>, k: int)
    requires
        0 <= k <= es.len(),
    ensures
        entries_of(entry_values(es), k) == Ok::<Seq<EntryModel>, ErrorKind>(
            normal_entries(es).take(k),
        ),
    decreases k,
{
    if k == 0 {
        assert(normal_entries(es).take(0) =~= Seq::<EntryModel>::empty());
    } else {
        lemma_entries_round_trip(es, k - 1);
        law_entry_round_trip(es[k - 1]);
        assert(normal_entries(es).take(k) =~= normal_entries(es).take(k - 1).push(
            normal_entry(es[k - 1]),
        ));
    }
}

pub proof fn lemma_nodes_round_trip(d: DocModel, k: int)
    requires
        0 <= k <= d.nodes.len(),
        unique_names(d),
        canonical_nodes(d, k),
    ensures
        nodes_of(document_value(d), k) == Ok::<Seq<NodeModel>, ErrorKind>(normal_nodes(d, k)),
    decreases d, k,
{
    if k > 0 {
        lemma_nodes_round_trip(d, k - 1);
        let v = document_value(d);
        let cols = node_names(d.nodes);
        let vals = node_values(d, d.nodes.len() as int);
        lemma_node_values(d, d.nodes.len() as int);
        assert forall|i: int, j: int| 0 <= i < j < cols.len() implies cols[i] != cols[j] by {
            assert(d.nodes[i].name != d.nodes[j].name);
        }
        lemma_lookup_unique(cols, cols.len() as int, k - 1);
        assert(record_index(cols, vals, cols[k - 1]) == k - 1);
        lemma_node_round_trip(d.nodes[k - 1]);
    }
}

/// Encoding the value of a canonical node under its name gives the node
/// back, normalised.
pub proof fn lemma_node_round_trip(n: NodeModel)
    requires
        canonical_node(n),
    ensures
        node_of(n.name, node_value(n)) == Ok::<NodeModel, ErrorKind>(normal_node(n)),
    decreases n, 0int,
{
    let es = n.entries;
    let ev = entry_values(es);
    lemma_entries_round_trip(es, es.len() as int);
    assert(normal_entries(es).take(es.len() as int) =~= normal_entries(es));
    if es.len() == 0 {
        assert(normal_entries(es) =~= Seq::<EntryModel>::empty());
    }
    if es.len() == 1 {
        law_entry_round_trip(es[0]);
        assert(normal_entries(es) =~= seq![normal_entry(es[0])]);
    }
    match n.children {
        None => {
            if es.len() == 1 {
                law_literal_round_trip(es[0].value);
            }
        },
        Some(c) => {
            law_document_round_trip(c);
            if es.len() > 0 {
                lemma_keys_differ();
                let cols = seq![entries_key(), children_key()];
                let vals = seq![entries_field(ev), document_value(c)];
                assert(lookup_index(cols, 1, entries_key()) == 0);
                assert(record_index(cols, vals, entries_key()) == 0);
                assert(record_index(cols, vals, children_key()) == 1);
                assert(entries_from(entries_field(ev)) == Ok::<Seq<EntryModel>, ErrorKind>(
                    normal_entries(es),
                ));
            }
        },
    }
}

/// Decoding a canonical document and encoding the value gives the document
/// back, with every literal normalised.
pub proof fn law_document_round_trip(d: DocModel)
    requires
        canonical_document(d),
    ensures
        document_of(document_value(d)) == Ok::<DocModel, ErrorKind>(normal_document(d)),
    decreases d, d.nodes.len() + 1,
{
    lemma_nodes_round_trip(d, d.nodes.len() as int);
}

/// A node with one positional, non-null entry and no children decodes to
/// the bare value of the entry, and encoding that value under the node's
/// name gives a node with that one positional entry and no children.
pub proof fn law_single_entry_node(name: Seq<char>, l: LitModel)
    requires
        !(l is Null),
    ensures
        ({
            let n = NodeModel {
                name,
                entries: seq![EntryModel { name: None, value: l }],
                children: None,
            };
            &&& node_value(n) == literal_value(l)
            &&& node_of(name, node_value(n)) == Ok::<NodeModel, ErrorKind>(
                NodeModel {
                    name,
                    entries: seq![EntryModel { name: None, value: normal_literal(l) }],
                    children: None,
                },
            )
        }),
{
    let n = NodeModel { name, entries: seq![EntryModel { name: None, value: l }], children: None };
    lemma_node_round_trip(n);
    assert(normal_entries(n.entries) =~= seq![EntryModel { name: None, value: normal_literal(l) }]);
}

/// A node with entries and children decodes to the record of `entries` and
/// `children`, and encoding that record under the node's name gives the
/// node back, normalised, when its children are canonical.
pub proof fn law_marker_round_trip(n: NodeModel)
    requires
        n.entries.len() >= 1,
        n.children is Some,
        canonical_document(n.children->Some_0),
    ensures
        node_value(n) == ValModel::Record(
            seq![entries_key(), children_key()],
            seq![entries_field(entry_values(n.entries)), document_value(n.children->Some_0)],
        ),
        node_of(n.name, node_value(n)) == Ok::<NodeModel, ErrorKind>(normal_node(n)),
{
    lemma_node_round_trip(n);
}

} // verus!
