//! The scalar values a template can hold.

use vstd::prelude::*;
use toml_edit::Formatted;
use crate::document::{fresh_scalar, value_node};

verus! {

/// What a [`TomlValue`] stands for in contracts.
pub enum Scalar {
    Int(i64),
    Bool(bool),
    Str(Seq<char>),
}

/// A scalar value of a template item. No kind converts into another.
#[derive(Clone, Debug)]
pub enum TomlValue {
    Int(i64),
    Bool(bool),
    String(String),
}

impl View for TomlValue {
    type V = Scalar;

    open spec fn view(&self) -> Scalar {
        match self {
            TomlValue::Int(v) => Scalar::Int(*v),
            TomlValue::Bool(v) => Scalar::Bool(*v),
            TomlValue::String(v) => Scalar::Str(v@),
        }
    }
}

impl PartialEq for TomlValue {
    fn eq(&self, other: &Self) -> (r: bool) {
        match self {
            TomlValue::Int(a) => match other {
                TomlValue::Int(b) => *a == *b,
                _ => false,
            },
            TomlValue::Bool(a) => match other {
                TomlValue::Bool(b) => *a == *b,
                _ => false,
            },
            TomlValue::String(a) => match other {
                TomlValue::String(b) => *a == *b,
                _ => false,
            },
        }
    }
}

impl vstd::std_specs::cmp::PartialEqSpecImpl for TomlValue {
    open spec fn obeys_eq_spec() -> bool {
        true
    }

    open spec fn eq_spec(&self, other: &Self) -> bool {
        self@ == other@
    }
}

impl Eq for TomlValue {

}

impl TomlValue {
    pub fn integer(value: i64) -> (r: Self)
        ensures
            r@ == Scalar::Int(value),
    {
        TomlValue::Int(value)
    }

    pub fn bool(value: bool) -> (r: Self)
        ensures
            r@ == Scalar::Bool(value),
    {
        TomlValue::Bool(value)
    }

    pub fn string(value: &str) -> (r: Self)
        ensures
            r@ == Scalar::Str(value@),
    {
        TomlValue::String(String::from_str(value))
    }

    /// `Formatted::new` in the `Value` variant of the scalar's kind: a value
    /// in the writer's own form, with the decoration that the writer picks.
    #[verifier::external_body]
    pub fn to_toml_value(&self) -> (r: toml_edit::Value)
        ensures
            value_node(r) == fresh_scalar(self@),
    {
        match self {
            TomlValue::Int(value) => toml_edit::Value::Integer(Formatted::new(*value)),
            TomlValue::Bool(value) => toml_edit::Value::Boolean(Formatted::new(*value)),
            TomlValue::String(value) => toml_edit::Value::String(Formatted::new(value.clone())),
        }
    }

    /// A copy with the same view.
    pub fn duplicate(&self) -> (r: Self)
        ensures
            r@ == self@,
    {
        match self {
            TomlValue::Int(v) => TomlValue::Int(*v),
            TomlValue::Bool(v) => TomlValue::Bool(*v),
            TomlValue::String(v) => TomlValue::String(v.clone()),
        }
    }
}

/// A key of a table together with the value to store under it.
#[derive(Clone, Debug)]
pub struct TableItem {
    pub name: String,
    pub value: TomlValue,
}

impl TableItem {
    pub fn integer(name: &str, value: i64) -> (r: Self)
        ensures
            r.name@ == name@,
            r.value@ == Scalar::Int(value),
    {
        Self { name: String::from_str(name), value: TomlValue::Int(value) }
    }

    pub fn bool(name: &str, value: bool) -> (r: Self)
        ensures
            r.name@ == name@,
            r.value@ == Scalar::Bool(value),
    {
        Self { name: String::from_str(name), value: TomlValue::Bool(value) }
    }

    pub fn string(name: &str, value: &str) -> (r: Self)
        ensures
            r.name@ == name@,
            r.value@ == Scalar::Str(value@),
    {
        Self { name: String::from_str(name), value: TomlValue::String(String::from_str(value)) }
    }
}

/// Prefilled values that add or replace fields of a table.
#[derive(Clone)]
pub struct TomlTableTemplate {
    pub items: Vec<TableItem>,
}

} // verus!
