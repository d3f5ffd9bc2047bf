use nu_plugin_kdl::decode::{decode_document, decode_entry, decode_literal, decode_node};
use nu_plugin_kdl::document::{Document, Entry, Literal, Node, Radix};
use nu_plugin_kdl::encode::{encode_document, encode_entry, encode_literal, encode_node};
use nu_plugin_kdl::error::ErrorKind;
use nu_plugin_kdl::value::Value;
use nu_plugin_kdl::{input_text, KDL};

fn s(x: &str) -> String {
    x.to_string()
}

fn arg(value: Literal) -> Entry {
    Entry { name: None, value }
}

fn prop(name: &str, value: Literal) -> Entry {
    Entry { name: Some(s(name)), value }
}

fn dec(i: i64) -> Literal {
    Literal::Int(i, Radix::Decimal)
}

fn node(name: &str, entries: Vec<Entry>, children: Option<Document>) -> Node {
    Node { name: s(name), entries, children }
}

fn record(cols: Vec<&str>, vals: Vec<Value>) -> Value {
    Value::Record { cols: cols.into_iter().map(s).collect(), vals }
}

#[test]
fn positional_and_property_entries_decode_to_list() {
    // node1 "str" 1 key=true
    let doc = Document {
        nodes: vec![node(
            "node1",
            vec![arg(Literal::Str(s("str"))), arg(dec(1)), prop("key", Literal::Bool(true))],
            None,
        )],
    };
    let expected = record(
        vec!["node1"],
        vec![Value::List(vec![
            Value::String(s("str")),
            Value::Int(1),
            record(vec!["key"], vec![Value::Bool(true)]),
        ])],
    );
    assert_eq!(decode_document(&doc), expected);
}

#[test]
fn single_string_node_round_trips() {
    // node "hello"
    let doc = Document { nodes: vec![node("node", vec![arg(Literal::Str(s("hello")))], None)] };
    let value = decode_document(&doc);
    assert_eq!(value, record(vec!["node"], vec![Value::String(s("hello"))]));
    let back = encode_document(&value).unwrap();
    assert_eq!(back, doc);
    assert_eq!(back.nodes.len(), 1);
    assert_eq!(back.nodes[0].entries.len(), 1);
    assert_eq!(back.nodes[0].entries[0].name, None);
    assert_eq!(back.nodes[0].children, None);
}

#[test]
fn children_without_entries_decode_to_record() {
    // parent { child1; child2 1 }
    let doc = Document {
        nodes: vec![node(
            "parent",
            vec![],
            Some(Document {
                nodes: vec![node("child1", vec![], None), node("child2", vec![arg(dec(1))], None)],
            }),
        )],
    };
    let expected = record(
        vec!["parent"],
        vec![record(vec!["child1", "child2"], vec![Value::Nothing, Value::Int(1)])],
    );
    assert_eq!(decode_document(&doc), expected);
}

#[test]
fn entries_and_children_decode_to_marker_record() {
    // node 1 2 { inner }
    let doc = Document {
        nodes: vec![node(
            "node",
            vec![arg(dec(1)), arg(dec(2))],
            Some(Document { nodes: vec![node("inner", vec![], None)] }),
        )],
    };
    let expected = record(
        vec!["node"],
        vec![record(
            vec!["entries", "children"],
            vec![
                Value::List(vec![Value::Int(1), Value::Int(2)]),
                record(vec!["inner"], vec![Value::Nothing]),
            ],
        )],
    );
    let value = decode_document(&doc);
    assert_eq!(value, expected);
    assert_eq!(encode_document(&value).unwrap(), doc);
}

#[test]
fn nothing_encodes_to_bare_node() {
    let doc = encode_document(&record(vec!["x"], vec![Value::Nothing])).unwrap();
    assert_eq!(doc, Document { nodes: vec![node("x", vec![], None)] });
}

#[test]
fn scalars_round_trip_through_literals() {
    let scalars = vec![
        Value::Nothing,
        Value::Bool(false),
        Value::Bool(true),
        Value::Int(-42),
        Value::Int(i64::MAX),
        Value::Float(2.5f64.to_bits()),
        Value::String(s("text")),
        Value::String(s("")),
    ];
    for v in scalars {
        let l = encode_literal(&v).unwrap();
        assert_eq!(decode_literal(&l), v);
    }
}

#[test]
fn literals_are_normalised_on_the_way_back() {
    assert_eq!(decode_literal(&Literal::Int(255, Radix::Hex)), Value::Int(255));
    assert_eq!(decode_literal(&Literal::Int(5, Radix::Binary)), Value::Int(5));
    assert_eq!(decode_literal(&Literal::Int(8, Radix::Octal)), Value::Int(8));
    assert_eq!(
        encode_literal(&decode_literal(&Literal::Int(255, Radix::Hex))),
        Ok(Literal::Int(255, Radix::Decimal))
    );
    assert_eq!(decode_literal(&Literal::RawStr(s("r"))), Value::String(s("r")));
    assert_eq!(
        encode_literal(&decode_literal(&Literal::RawStr(s("r")))),
        Ok(Literal::Str(s("r")))
    );
    assert_eq!(decode_literal(&Literal::Null), Value::Nothing);
    assert_eq!(decode_literal(&Literal::Float(7)), Value::Float(7));
}

#[test]
fn single_positional_node_collapses_and_expands() {
    let n = node("n", vec![arg(Literal::Int(3, Radix::Octal))], None);
    let v = decode_node(&n);
    assert_eq!(v, Value::Int(3));
    assert_eq!(encode_node(&s("n"), &v).unwrap(), node("n", vec![arg(dec(3))], None));
}

#[test]
fn marker_record_round_trips_with_one_property_entry() {
    let n = node(
        "n",
        vec![prop("k", Literal::Bool(false))],
        Some(Document { nodes: vec![node("c", vec![arg(Literal::Str(s("v")))], None)] }),
    );
    let v = decode_node(&n);
    assert_eq!(
        v,
        record(
            vec!["entries", "children"],
            vec![
                record(vec!["k"], vec![Value::Bool(false)]),
                record(vec!["c"], vec![Value::String(s("v"))]),
            ],
        )
    );
    assert_eq!(encode_node(&s("n"), &v).unwrap(), n);
}

#[test]
fn marker_keys_in_either_order() {
    let v = record(
        vec!["children", "entries"],
        vec![record(vec!["x"], vec![Value::Nothing]), Value::Int(9)],
    );
    let expected = node(
        "m",
        vec![arg(dec(9))],
        Some(Document { nodes: vec![node("x", vec![], None)] }),
    );
    assert_eq!(encode_node(&s("m"), &v).unwrap(), expected);
}

#[test]
fn entry_from_record_needs_exactly_one_key() {
    assert_eq!(encode_entry(&record(vec![], vec![])), Err(ErrorKind::InvalidEntryShape));
    assert_eq!(
        encode_entry(&record(vec!["a", "b"], vec![Value::Int(1), Value::Int(2)])),
        Err(ErrorKind::InvalidEntryShape)
    );
    assert_eq!(
        encode_node(&s("n"), &Value::List(vec![record(vec![], vec![])])),
        Err(ErrorKind::InvalidEntryShape)
    );
    assert_eq!(
        encode_entry(&record(vec!["a"], vec![Value::Int(1)])),
        Ok(prop("a", dec(1)))
    );
}

#[test]
fn document_keeps_node_order() {
    let doc = Document {
        nodes: vec![node("a", vec![], None), node("b", vec![], None), node("c", vec![], None)],
    };
    match decode_document(&doc) {
        Value::Record { cols, vals } => {
            assert_eq!(cols, vec![s("a"), s("b"), s("c")]);
            assert_eq!(vals.len(), 3);
        },
        other => panic!("expected a record, got {:?}", other),
    }
}

#[test]
fn empty_document_is_empty_record() {
    let doc = Document { nodes: vec![] };
    let v = decode_document(&doc);
    assert_eq!(v, record(vec![], vec![]));
    assert_eq!(encode_document(&v).unwrap(), doc);
}

#[test]
fn empty_children_round_trip() {
    let doc = Document { nodes: vec![node("p", vec![], Some(Document { nodes: vec![] }))] };
    let v = decode_document(&doc);
    assert_eq!(v, record(vec!["p"], vec![record(vec![], vec![])]));
    assert_eq!(encode_document(&v).unwrap(), doc);
}

#[test]
fn property_entry_decodes_to_one_key_record() {
    assert_eq!(
        decode_entry(&prop("k", Literal::Str(s("v")))),
        record(vec!["k"], vec![Value::String(s("v"))])
    );
    assert_eq!(decode_entry(&arg(Literal::Bool(true))), Value::Bool(true));
}

#[test]
fn duplicate_names_keep_the_later_value_on_encode() {
    let doc = Document {
        nodes: vec![node("a", vec![arg(dec(1))], None), node("a", vec![arg(dec(2))], None)],
    };
    let v = decode_document(&doc);
    assert_eq!(v, record(vec!["a", "a"], vec![Value::Int(1), Value::Int(2)]));
    let back = encode_document(&v).unwrap();
    assert_eq!(
        back,
        Document {
            nodes: vec![node("a", vec![arg(dec(2))], None), node("a", vec![arg(dec(2))], None)],
        }
    );
}

#[test]
fn encoding_a_non_record_fails() {
    assert_eq!(encode_document(&Value::Int(1)), Err(ErrorKind::NotARecord));
    assert_eq!(encode_document(&Value::List(vec![])), Err(ErrorKind::NotARecord));
    let marker_with_bad_children =
        record(vec!["entries", "children"], vec![Value::Int(1), Value::Int(2)]);
    assert_eq!(encode_node(&s("n"), &marker_with_bad_children), Err(ErrorKind::NotARecord));
}

#[test]
fn nested_list_is_unsupported() {
    let v = record(vec!["n"], vec![Value::List(vec![Value::List(vec![])])]);
    assert_eq!(encode_document(&v), Err(ErrorKind::UnsupportedValueType));
    let v = record(vec!["n"], vec![Value::List(vec![record(vec!["k"], vec![Value::List(vec![])])])]);
    assert_eq!(encode_document(&v), Err(ErrorKind::UnsupportedValueType));
    assert_eq!(encode_literal(&record(vec![], vec![])), Err(ErrorKind::UnsupportedValueType));
}

#[test]
fn key_without_value_is_missing() {
    let v = Value::Record { cols: vec![s("a")], vals: vec![] };
    assert_eq!(encode_document(&v), Err(ErrorKind::MissingKey));
    assert_eq!(encode_entry(&v), Err(ErrorKind::MissingKey));
}

#[test]
fn first_failing_entry_decides_the_error() {
    let v = Value::List(vec![Value::Int(1), record(vec![], vec![]), Value::List(vec![])]);
    assert_eq!(encode_node(&s("n"), &v), Err(ErrorKind::InvalidEntryShape));
}

#[test]
fn scalar_node_values_encode_to_one_entry() {
    assert_eq!(
        encode_node(&s("f"), &Value::Float(1.5f64.to_bits())).unwrap(),
        node("f", vec![arg(Literal::Float(1.5f64.to_bits()))], None)
    );
    assert_eq!(
        encode_node(&s("b"), &Value::Bool(true)).unwrap(),
        node("b", vec![arg(Literal::Bool(true))], None)
    );
}

#[test]
fn plugin_decodes_and_encodes() {
    let kdl = KDL;
    let doc = Document { nodes: vec![node("k", vec![arg(dec(4)), arg(dec(5))], None)] };
    let v = kdl.from(&doc);
    assert_eq!(v, record(vec!["k"], vec![Value::List(vec![Value::Int(4), Value::Int(5)])]));
    assert_eq!(kdl.to(&v).unwrap(), doc);
    assert_eq!(kdl.to(&Value::Nothing), Err(ErrorKind::NotARecord));
}

#[test]
fn input_must_be_text() {
    assert_eq!(input_text(&Value::String(s("a 1"))), Ok(s("a 1")));
    assert_eq!(input_text(&Value::Int(1)), Err(ErrorKind::InputTypeError));
}

#[test]
fn errors_have_labels_and_messages() {
    assert_eq!(ErrorKind::InvalidEntryShape.label(), "invalid input");
    assert_eq!(
        ErrorKind::InvalidEntryShape.message(),
        "entry must be a record with exactly one key"
    );
    assert_eq!(ErrorKind::ParseError.label(), "failed to parse KDL");
    assert_eq!(ErrorKind::NotARecord.message(), "value to encode must be a record");
}

#[test]
fn lone_null_entry_collapses_to_nothing() {
    let n = node("n", vec![arg(Literal::Null)], None);
    let v = decode_node(&n);
    assert_eq!(v, Value::Nothing);
    assert_eq!(encode_node(&s("n"), &v).unwrap(), node("n", vec![], None));
}

#[test]
fn marker_without_its_values_is_missing_a_key() {
    let v = Value::Record { cols: vec![s("entries"), s("children")], vals: vec![Value::Int(1)] };
    assert_eq!(encode_node(&s("n"), &v), Err(ErrorKind::MissingKey));
}
