//! The element types that memory variables and block maps can carry, erased
//! into one tagged sum so that heterogeneous cells can live in one registry.

use vstd::prelude::*;

verus! {

/// A value of one of the supported element types.
#[derive(Clone, Copy, Debug, PartialEq, Eq, Structural)]
pub enum Value {
    Bool(bool),
    I32(i32),
    I64(i64),
    U32(u32),
    U64(u64),
}

/// The tag of a supported element type.
#[derive(Clone, Copy, Debug, PartialEq, Eq, Structural)]
pub enum ValueKind {
    Bool,
    I32,
    I64,
    U32,
    U64,
}

/// The tag a value carries.
pub open spec fn value_kind(v: Value) -> ValueKind {
    match v {
        Value::Bool(_) => ValueKind::Bool,
        Value::I32(_) => ValueKind::I32,
        Value::I64(_) => ValueKind::I64,
        Value::U32(_) => ValueKind::U32,
        Value::U64(_) => ValueKind::U64,
    }
}

/// An element type that the registries support: it names its tag, converts
/// to and from the tagged sum, and carries a total order for limit checks.
pub trait MemElem: Sized + Copy {
    /// The tag of this element type.
    spec fn kind_spec() -> ValueKind;

    /// The tagged form of a value of this type.
    spec fn to_value_spec(self) -> Value;

    /// The order used for `[lo, hi]` limit checks.
    spec fn le_spec(self, other: Self) -> bool;

    /// Tagging keeps the type's own tag.
    proof fn lemma_kind(self)
        ensures
            value_kind(self.to_value_spec()) == Self::kind_spec(),
    ;

    fn kind() -> (k: ValueKind)
        ensures
            k == Self::kind_spec(),
    ;

    fn to_value(self) -> (v: Value)
        ensures
            v == self.to_value_spec(),
    ;

    fn from_value(v: Value) -> (r: Option<Self>)
        ensures
            r is Some <==> value_kind(v) == Self::kind_spec(),
            r is Some ==> r->0.to_value_spec() == v,
    ;

    fn le(&self, other: &Self) -> (r: bool)
        ensures
            r == self.le_spec(*other),
    ;
}

impl MemElem for bool {
    open spec fn kind_spec() -> ValueKind {
        ValueKind::Bool
    }

    open spec fn to_value_spec(self) -> Value {
        Value::Bool(self)
    }

    open spec fn le_spec(self, other: Self) -> bool {
        !self || other
    }

    proof fn lemma_kind(self) {
    }

    fn kind() -> ValueKind {
        ValueKind::Bool
    }

    fn to_value(self) -> Value {
        Value::Bool(self)
    }

    fn from_value(v: Value) -> Option<Self> {
        match v {
            Value::Bool(b) => Some(b),
            _ => None,
        }
    }

    fn le(&self, other: &Self) -> bool {
        !*self || *other
    }
}

impl MemElem for i32 {
    open spec fn kind_spec() -> ValueKind {
        ValueKind::I32
    }

    open spec fn to_value_spec(self) -> Value {
        Value::I32(self)
    }

    open spec fn le_spec(self, other: Self) -> bool {
        self <= other
    }

    proof fn lemma_kind(self) {
    }

    fn kind() -> ValueKind {
        ValueKind::I32
    }

    fn to_value(self) -> Value {
        Value::I32(self)
    }

    fn from_value(v: Value) -> Option<Self> {
        match v {
            Value::I32(x) => Some(x),
            _ => None,
        }
    }

    fn le(&self, other: &Self) -> bool {
        *self <= *other
    }
}

impl MemElem for i64 {
    open spec fn kind_spec() -> ValueKind {
        ValueKind::I64
    }

    open spec fn to_value_spec(self) -> Value {
        Value::I64(self)
    }

    open spec fn le_spec(self, other: Self) -> bool {
        self <= other
    }

    proof fn lemma_kind(self) {
    }

    fn kind() -> ValueKind {
        ValueKind::I64
    }

    fn to_value(self) -> Value {
        Value::I64(self)
    }

    fn from_value(v: Value) -> Option<Self> {
        match v {
            Value::I64(x) => Some(x),
            _ => None,
        }
    }

    fn le(&self, other: &Self) -> bool {
        *self <= *other
    }
}

impl MemElem for u32 {
    open spec fn kind_spec() -> ValueKind {
        ValueKind::U32
    }

    open spec fn to_value_spec(self) -> Value {
        Value::U32(self)
    }

    open spec fn le_spec(self, other: Self) -> bool {
        self <= other
    }

    proof fn lemma_kind(self) {
    }

    fn kind() -> ValueKind {
        ValueKind::U32
    }

    fn to_value(self) -> Value {
        Value::U32(self)
    }

    fn from_value(v: Value) -> Option<Self> {
        match v {
            Value::U32(x) => Some(x),
            _ => None,
        }
    }

    fn le(&self, other: &Self) -> bool {
        *self <= *other
    }
}

impl MemElem for u64 {
    open spec fn kind_spec() -> ValueKind {
        ValueKind::U64
    }

    open spec fn to_value_spec(self) -> Value {
        Value::U64(self)
    }

    open spec fn le_spec(self, other: Self) -> bool {
        self <= other
    }

    proof fn lemma_kind(self) {
    }

    fn kind() -> ValueKind {
        ValueKind::U64
    }

    fn to_value(self) -> Value {
        Value::U64(self)
    }

    fn from_value(v: Value) -> Option<Self> {
        match v {
            Value::U64(x) => Some(x),
            _ => None,
        }
    }

    fn le(&self, other: &Self) -> bool {
        *self <= *other
    }
}

} // verus!
