//! Literal values of the schema language.
//!
//! The schema compiler that sits in front of the runtime carries default
//! values and metadata around as small literal trees: scalars, strings,
//! lists and keyed objects.  The conversions here build those trees from
//! plain Rust values; each conversion's meaning is pinned by its spec.

use vstd::prelude::*;

verus! {

/// A literal scalar.
#[derive(Clone, Copy, Debug, PartialEq)]
pub enum Scalar {
    Integer(i64),
    Boolean(bool),
}

/// A single (non-aggregate) literal: a scalar or a string.
#[derive(Clone, Copy, Debug, PartialEq)]
pub enum Single<'a> {
    Scalar(Scalar),
    String(&'a str),
}

/// An identifier.
#[derive(Clone, Copy, Debug, PartialEq)]
pub struct Ident<'a> {
    pub raw: &'a str,
}

/// A keyed collection of literal values.
#[derive(Debug, PartialEq)]
pub struct Object<'a> {
    pub values: Vec<(Ident<'a>, Value<'a>)>,
}

/// A literal value tree: single values, lists, and keyed objects.
#[derive(Debug, PartialEq)]
pub enum Value<'a> {
    Single(Single<'a>),
    List(Vec<Value<'a>>),
    Object(Object<'a>),
}

impl vstd::std_specs::convert::FromSpecImpl<i64> for Scalar {
    open spec fn obeys_from_spec() -> bool {
        true
    }

    open spec fn from_spec(v: i64) -> Self {
        Scalar::Integer(v)
    }
}

impl From<i64> for Scalar {
    fn from(v: i64) -> (r: Self) {
        Scalar::Integer(v)
    }
}

impl vstd::std_specs::convert::FromSpecImpl<bool> for Scalar {
    open spec fn obeys_from_spec() -> bool {
        true
    }

    open spec fn from_spec(v: bool) -> Self {
        Scalar::Boolean(v)
    }
}

impl From<bool> for Scalar {
    fn from(v: bool) -> (r: Self) {
        Scalar::Boolean(v)
    }
}

impl<'a> vstd::std_specs::convert::FromSpecImpl<Scalar> for Single<'a> {
    open spec fn obeys_from_spec() -> bool {
        true
    }

    open spec fn from_spec(v: Scalar) -> Self {
        Single::Scalar(v)
    }
}

impl<'a> From<Scalar> for Single<'a> {
    fn from(v: Scalar) -> (r: Self) {
        Single::Scalar(v)
    }
}

impl<'a> vstd::std_specs::convert::FromSpecImpl<i64> for Single<'a> {
    open spec fn obeys_from_spec() -> bool {
        true
    }

    open spec fn from_spec(v: i64) -> Self {
        Single::Scalar(Scalar::Integer(v))
    }
}

impl<'a> From<i64> for Single<'a> {
    fn from(v: i64) -> (r: Self) {
        Single::Scalar(Scalar::Integer(v))
    }
}

impl<'a> vstd::std_specs::convert::FromSpecImpl<bool> for Single<'a> {
    open spec fn obeys_from_spec() -> bool {
        true
    }

    open spec fn from_spec(v: bool) -> Self {
        Single::Scalar(Scalar::Boolean(v))
    }
}

impl<'a> From<bool> for Single<'a> {
    fn from(v: bool) -> (r: Self) {
        Single::Scalar(Scalar::Boolean(v))
    }
}

impl<'a> vstd::std_specs::convert::FromSpecImpl<&'a str> for Single<'a> {
    open spec fn obeys_from_spec() -> bool {
        true
    }

    open spec fn from_spec(v: &'a str) -> Self {
        Single::String(v)
    }
}

impl<'a> From<&'a str> for Single<'a> {
    fn from(v: &'a str) -> (r: Self) {
        Single::String(v)
    }
}

impl<'a> vstd::std_specs::convert::FromSpecImpl<&'a str> for Ident<'a> {
    open spec fn obeys_from_spec() -> bool {
        true
    }

    open spec fn from_spec(v: &'a str) -> Self {
        Ident { raw: v }
    }
}

impl<'a> From<&'a str> for Ident<'a> {
    fn from(v: &'a str) -> (r: Self) {
        Ident { raw: v }
    }
}

impl<'a> vstd::std_specs::convert::FromSpecImpl<Vec<(Ident<'a>, Value<'a>)>> for Object<'a> {
    open spec fn obeys_from_spec() -> bool {
        true
    }

    open spec fn from_spec(v: Vec<(Ident<'a>, Value<'a>)>) -> Self {
        Object { values: v }
    }
}

impl<'a> From<Vec<(Ident<'a>, Value<'a>)>> for Object<'a> {
    fn from(v: Vec<(Ident<'a>, Value<'a>)>) -> (r: Self) {
        Object { values: v }
    }
}

impl<'a> vstd::std_specs::convert::FromSpecImpl<Single<'a>> for Value<'a> {
    open spec fn obeys_from_spec() -> bool {
        true
    }

    open spec fn from_spec(v: Single<'a>) -> Self {
        Value::Single(v)
    }
}

impl<'a> From<Single<'a>> for Value<'a> {
    fn from(v: Single<'a>) -> (r: Self) {
        Value::Single(v)
    }
}

impl<'a> vstd::std_specs::convert::FromSpecImpl<Vec<Value<'a>>> for Value<'a> {
    open spec fn obeys_from_spec() -> bool {
        true
    }

    open spec fn from_spec(v: Vec<Value<'a>>) -> Self {
        Value::List(v)
    }
}

impl<'a> From<Vec<Value<'a>>> for Value<'a> {
    fn from(v: Vec<Value<'a>>) -> (r: Self) {
        Value::List(v)
    }
}

impl<'a> vstd::std_specs::convert::FromSpecImpl<Object<'a>> for Value<'a> {
    open spec fn obeys_from_spec() -> bool {
        true
    }

    open spec fn from_spec(v: Object<'a>) -> Self {
        Value::Object(v)
    }
}

impl<'a> From<Object<'a>> for Value<'a> {
    fn from(v: Object<'a>) -> (r: Self) {
        Value::Object(v)
    }
}

impl<'a> vstd::std_specs::convert::FromSpecImpl<Vec<(Ident<'a>, Value<'a>)>> for Value<'a> {
    open spec fn obeys_from_spec() -> bool {
        true
    }

    open spec fn from_spec(v: Vec<(Ident<'a>, Value<'a>)>) -> Self {
        Value::Object(Object { values: v })
    }
}

impl<'a> From<Vec<(Ident<'a>, Value<'a>)>> for Value<'a> {
    fn from(v: Vec<(Ident<'a>, Value<'a>)>) -> (r: Self) {
        Value::Object(Object { values: v })
    }
}

} // verus!
