//! The generic value model: scalars, lists and ordered records.
use vstd::prelude::*;

verus! {

/// Mathematical model of a [`Value`].
pub enum ValModel {
    Nothing,
    Bool(bool),
    Int(i64),
    /// A float, held as its IEEE-754 bit pattern.
    Float(u64),
    Str(Seq<char>),
    List(Seq<ValModel>),
    /// Parallel sequences of keys and values, in insertion order.
    Record(Seq<Seq<char>>, Seq<ValModel>),
}

/// A generic, dynamically tagged value.
#[derive(Debug, PartialEq)]
pub enum Value {
    Nothing,
    Bool(bool),
    Int(i64),
    /// A float, held as its IEEE-754 bit pattern; it is carried, never computed on.
    Float(u64),
    String(String),
    List(Vec<Value>),
    /// An ordered record: `cols[i]` is the key of `vals[i]`.
    Record { cols: Vec<String>, vals: Vec<Value> },
}

pub open spec fn strings_view(s: Seq<String>) -> Seq<Seq<char>> {
    s.map_values(|x: String| x@)
}

/// The models of the first `n` values of `s`.
pub open spec fn values_view(s: Vec<Value>, n: int) -> Seq<ValModel>
    decreases s, n,
{
    if n <= 0 || n > s.len() {
        Seq::empty()
    } else {
        values_view(s, n - 1).push(value_view(s[n - 1]))
    }
}

pub open spec fn value_view(v: Value) -> ValModel
    decreases v, 0int,
{
    match v {
        Value::Nothing => ValModel::Nothing,
        Value::Bool(b) => ValModel::Bool(b),
        Value::Int(i) => ValModel::Int(i),
        Value::Float(f) => ValModel::Float(f),
        Value::String(s) => ValModel::Str(s@),
        Value::List(items) => ValModel::List(values_view(items, items.len() as int)),
        Value::Record { cols, vals } => ValModel::Record(
            strings_view(cols@),
            values_view(vals, vals.len() as int),
        ),
    }
}

impl View for Value {
    type V = ValModel;

    open spec fn view(&self) -> ValModel {
        value_view(*self)
    }
}

} // verus!
