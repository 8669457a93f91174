//! The cells a block's five maps hold: connectors stay typed inside a
//! tagged sum, variables are kept in their tagged value form.

use vstd::prelude::*;
use std::sync::mpsc::SyncSender;
use crate::connectors::Input;
use crate::connectors::Output;
use crate::streaming_data::StreamErrCode;
use crate::values::MemElem;
use crate::values::Value;
use crate::values::ValueKind;
use crate::values::value_kind;

verus! {

/// The order on tagged values of one kind; values of different kinds are
/// never ordered.
pub open spec fn value_le(a: Value, b: Value) -> bool {
    match (a, b) {
        (Value::Bool(x), Value::Bool(y)) => !x || y,
        (Value::I32(x), Value::I32(y)) => x <= y,
        (Value::I64(x), Value::I64(y)) => x <= y,
        (Value::U32(x), Value::U32(y)) => x <= y,
        (Value::U64(x), Value::U64(y)) => x <= y,
        _ => false,
    }
}

/// A tagged value lies within optional tagged `[lo, hi]` limits.
pub open spec fn value_within(limits: Option<(Value, Value)>, v: Value) -> bool {
    match limits {
        Option::None => true,
        Option::Some((lo, hi)) => value_le(lo, v) && value_le(v, hi),
    }
}

/// The tagged form of optional typed limits.
pub open spec fn limits_value_spec<T: MemElem>(l: Option<[T; 2]>) -> Option<(Value, Value)> {
    match l {
        Option::None => Option::None,
        Option::Some(a) => Option::Some((a[0].to_value_spec(), a[1].to_value_spec())),
    }
}

pub fn value_le_exec(a: &Value, b: &Value) -> (r: bool)
    ensures
        r == value_le(*a, *b),
{
    match (a, b) {
        (Value::Bool(x), Value::Bool(y)) => !*x || *y,
        (Value::I32(x), Value::I32(y)) => *x <= *y,
        (Value::I64(x), Value::I64(y)) => *x <= *y,
        (Value::U32(x), Value::U32(y)) => *x <= *y,
        (Value::U64(x), Value::U64(y)) => *x <= *y,
        _ => false,
    }
}

fn limits_value<T: MemElem>(l: &Option<[T; 2]>) -> (r: Option<(Value, Value)>)
    ensures
        r == limits_value_spec(*l),
{
    match l {
        Option::None => Option::None,
        Option::Some(a) => Option::Some((a[0].to_value(), a[1].to_value())),
    }
}

/// An input connector of one of the supported element types.
pub enum ConnCell {
    BoolIn(Input<bool>),
    I32In(Input<i32>),
    I64In(Input<i64>),
    U32In(Input<u32>),
    U64In(Input<u64>),
}

/// An output connector of one of the supported element types.
pub enum OutCell {
    BoolOut(Output<bool>),
    I32Out(Output<i32>),
    I64Out(Output<i64>),
    U32Out(Output<u32>),
    U64Out(Output<u64>),
}

/// The element kind an input cell carries.
pub open spec fn conn_kind(c: ConnCell) -> ValueKind {
    match c {
        ConnCell::BoolIn(_) => ValueKind::Bool,
        ConnCell::I32In(_) => ValueKind::I32,
        ConnCell::I64In(_) => ValueKind::I64,
        ConnCell::U32In(_) => ValueKind::U32,
        ConnCell::U64In(_) => ValueKind::U64,
    }
}

/// The element kind an output cell carries.
pub open spec fn out_kind(c: OutCell) -> ValueKind {
    match c {
        OutCell::BoolOut(_) => ValueKind::Bool,
        OutCell::I32Out(_) => ValueKind::I32,
        OutCell::I64Out(_) => ValueKind::I64,
        OutCell::U32Out(_) => ValueKind::U32,
        OutCell::U64Out(_) => ValueKind::U64,
    }
}

/// How many senders the output inside a cell fans out to.
pub open spec fn out_fan_out(c: OutCell) -> nat {
    match c {
        OutCell::BoolOut(o) => o.fan_out(),
        OutCell::I32Out(o) => o.fan_out(),
        OutCell::I64Out(o) => o.fan_out(),
        OutCell::U32Out(o) => o.fan_out(),
        OutCell::U64Out(o) => o.fan_out(),
    }
}

/// An element type that block connectors can carry: it wraps its typed
/// connectors into the tagged cells and recognises them again.
pub trait BlockElem: MemElem {
    /// The typed input inside a cell, when the cell is of this type.
    spec fn input_view(c: ConnCell) -> Option<Input<Self>>;

    /// The typed output inside a cell, when the cell is of this type.
    spec fn output_view(c: OutCell) -> Option<Output<Self>>;

    /// A cell holds this type's input exactly when its kind says so.
    proof fn lemma_input_view(c: ConnCell)
        ensures
            Self::input_view(c) is Some <==> conn_kind(c) == Self::kind_spec(),
    ;

    /// A cell holds this type's output exactly when its kind says so, and
    /// the cell's fan-out is the output's.
    proof fn lemma_output_view(o: OutCell)
        ensures
            Self::output_view(o) is Some <==> out_kind(o) == Self::kind_spec(),
            Self::output_view(o) matches Some(out) ==> out_fan_out(o) == out.fan_out(),
    ;

    fn wrap_input(inp: Input<Self>) -> (c: ConnCell)
        ensures
            Self::input_view(c) == Some(inp),
    ;

    fn wrap_output(out: Output<Self>) -> (c: OutCell)
        ensures
            Self::output_view(c) == Some(out),
    ;

    fn unwrap_input(c: &ConnCell) -> (r: Option<&Input<Self>>)
        ensures
            match r {
                Some(inp) => Self::input_view(*c) == Some(*inp),
                None => Self::input_view(*c) is None,
            },
    ;

    fn unwrap_output(c: &OutCell) -> (r: Option<&Output<Self>>)
        ensures
            match r {
                Some(out) => Self::output_view(*c) == Some(*out),
                None => Self::output_view(*c) is None,
            },
    ;

    /// Attach a sender to the output inside the cell; `false` means the
    /// cell is of another type and is left unchanged.
    fn connect_cell(c: &mut OutCell, sender: SyncSender<Self>) -> (r: bool)
        ensures
            r <==> out_kind(*old(c)) == Self::kind_spec(),
            out_kind(*final(c)) == out_kind(*old(c)),
            r ==> out_fan_out(*final(c)) == out_fan_out(*old(c)) + 1,
            !r ==> *final(c) == *old(c),
    ;
}

impl BlockElem for bool {
    open spec fn input_view(c: ConnCell) -> Option<Input<bool>> {
        match c {
            ConnCell::BoolIn(i) => Some(i),
            _ => None,
        }
    }

    open spec fn output_view(c: OutCell) -> Option<Output<bool>> {
        match c {
            OutCell::BoolOut(o) => Some(o),
            _ => None,
        }
    }

    proof fn lemma_input_view(c: ConnCell) {
    }

    proof fn lemma_output_view(o: OutCell) {
    }

    fn wrap_input(inp: Input<bool>) -> ConnCell {
        ConnCell::BoolIn(inp)
    }

    fn wrap_output(out: Output<bool>) -> OutCell {
        OutCell::BoolOut(out)
    }

    fn unwrap_input(c: &ConnCell) -> Option<&Input<bool>> {
        match c {
            ConnCell::BoolIn(i) => Some(i),
            _ => None,
        }
    }

    fn unwrap_output(c: &OutCell) -> Option<&Output<bool>> {
        match c {
            OutCell::BoolOut(o) => Some(o),
            _ => None,
        }
    }

    fn connect_cell(c: &mut OutCell, sender: SyncSender<bool>) -> bool {
        match c {
            OutCell::BoolOut(o) => {
                o.connect(sender);
                true
            },
            _ => false,
        }
    }
}

impl BlockElem for i32 {
    open spec fn input_view(c: ConnCell) -> Option<Input<i32>> {
        match c {
            ConnCell::I32In(i) => Some(i),
            _ => None,
        }
    }

    open spec fn output_view(c: OutCell) -> Option<Output<i32>> {
        match c {
            OutCell::I32Out(o) => Some(o),
            _ => None,
        }
    }

    proof fn lemma_input_view(c: ConnCell) {
    }

    proof fn lemma_output_view(o: OutCell) {
    }

    fn wrap_input(inp: Input<i32>) -> ConnCell {
        ConnCell::I32In(inp)
    }

    fn wrap_output(out: Output<i32>) -> OutCell {
        OutCell::I32Out(out)
    }

    fn unwrap_input(c: &ConnCell) -> Option<&Input<i32>> {
        match c {
            ConnCell::I32In(i) => Some(i),
            _ => None,
        }
    }

    fn unwrap_output(c: &OutCell) -> Option<&Output<i32>> {
        match c {
            OutCell::I32Out(o) => Some(o),
            _ => None,
        }
    }

    fn connect_cell(c: &mut OutCell, sender: SyncSender<i32>) -> bool {
        match c {
            OutCell::I32Out(o) => {
                o.connect(sender);
                true
            },
            _ => false,
        }
    }
}

impl BlockElem for i64 {
    open spec fn input_view(c: ConnCell) -> Option<Input<i64>> {
        match c {
            ConnCell::I64In(i) => Some(i),
            _ => None,
        }
    }

    open spec fn output_view(c: OutCell) -> Option<Output<i64>> {
        match c {
            OutCell::I64Out(o) => Some(o),
            _ => None,
        }
    }

    proof fn lemma_input_view(c: ConnCell) {
    }

    proof fn lemma_output_view(o: OutCell) {
    }

    fn wrap_input(inp: Input<i64>) -> ConnCell {
        ConnCell::I64In(inp)
    }

    fn wrap_output(out: Output<i64>) -> OutCell {
        OutCell::I64Out(out)
    }

    fn unwrap_input(c: &ConnCell) -> Option<&Input<i64>> {
        match c {
            ConnCell::I64In(i) => Some(i),
            _ => None,
        }
    }

    fn unwrap_output(c: &OutCell) -> Option<&Output<i64>> {
        match c {
            OutCell::I64Out(o) => Some(o),
            _ => None,
        }
    }

    fn connect_cell(c: &mut OutCell, sender: SyncSender<i64>) -> bool {
        match c {
            OutCell::I64Out(o) => {
                o.connect(sender);
                true
            },
            _ => false,
        }
    }
}

impl BlockElem for u32 {
    open spec fn input_view(c: ConnCell) -> Option<Input<u32>> {
        match c {
            ConnCell::U32In(i) => Some(i),
            _ => None,
        }
    }

    open spec fn output_view(c: OutCell) -> Option<Output<u32>> {
        match c {
            OutCell::U32Out(o) => Some(o),
            _ => None,
        }
    }

    proof fn lemma_input_view(c: ConnCell) {
    }

    proof fn lemma_output_view(o: OutCell) {
    }

    fn wrap_input(inp: Input<u32>) -> ConnCell {
        ConnCell::U32In(inp)
    }

    fn wrap_output(out: Output<u32>) -> OutCell {
        OutCell::U32Out(out)
    }

    fn unwrap_input(c: &ConnCell) -> Option<&Input<u32>> {
        match c {
            ConnCell::U32In(i) => Some(i),
            _ => None,
        }
    }

    fn unwrap_output(c: &OutCell) -> Option<&Output<u32>> {
        match c {
            OutCell::U32Out(o) => Some(o),
            _ => None,
        }
    }

    fn connect_cell(c: &mut OutCell, sender: SyncSender<u32>) -> bool {
        match c {
            OutCell::U32Out(o) => {
                o.connect(sender);
                true
            },
            _ => false,
        }
    }
}

impl BlockElem for u64 {
    open spec fn input_view(c: ConnCell) -> Option<Input<u64>> {
        match c {
            ConnCell::U64In(i) => Some(i),
            _ => None,
        }
    }

    open spec fn output_view(c: OutCell) -> Option<Output<u64>> {
        match c {
            OutCell::U64Out(o) => Some(o),
            _ => None,
        }
    }

    proof fn lemma_input_view(c: ConnCell) {
    }

    proof fn lemma_output_view(o: OutCell) {
    }

    fn wrap_input(inp: Input<u64>) -> ConnCell {
        ConnCell::U64In(inp)
    }

    fn wrap_output(out: Output<u64>) -> OutCell {
        OutCell::U64Out(out)
    }

    fn unwrap_input(c: &ConnCell) -> Option<&Input<u64>> {
        match c {
            ConnCell::U64In(i) => Some(i),
            _ => None,
        }
    }

    fn unwrap_output(c: &OutCell) -> Option<&Output<u64>> {
        match c {
            OutCell::U64Out(o) => Some(o),
            _ => None,
        }
    }

    fn connect_cell(c: &mut OutCell, sender: SyncSender<u64>) -> bool {
        match c {
            OutCell::U64Out(o) => {
                o.connect(sender);
                true
            },
            _ => false,
        }
    }
}

/// A block-held parameter in tagged form.
pub struct ParamVar {
    pub kind: ValueKind,
    pub value: Value,
    pub default: Value,
    pub limits: Option<(Value, Value)>,
}

impl ParamVar {
    /// The kinds inside the cell agree with its tag.
    pub open spec fn consistent(&self) -> bool {
        &&& value_kind(self.value) == self.kind
        &&& value_kind(self.default) == self.kind
        &&& match self.limits {
            Option::None => true,
            Option::Some((lo, hi)) => value_kind(lo) == self.kind && value_kind(hi) == self.kind,
        }
    }

    /// Store a new value if it lies within the limits.
    pub fn set(&mut self, v: Value) -> (r: Result<(), StreamErrCode>)
        ensures
            final(self).kind == old(self).kind,
            final(self).default == old(self).default,
            final(self).limits == old(self).limits,
            r is Ok <==> value_within(old(self).limits, v),
            r is Ok ==> final(self).value == v,
            r is Err ==> r == Err::<(), StreamErrCode>(StreamErrCode::OutOfRange) && final(self).value == old(self).value,
    {
        let ok = match &self.limits {
            Option::None => true,
            Option::Some((lo, hi)) => value_le_exec(lo, &v) && value_le_exec(&v, hi),
        };
        if ok {
            self.value = v;
            Ok(())
        } else {
            Err(StreamErrCode::OutOfRange)
        }
    }
}

/// A block-held write-once variable in tagged form.
pub struct StaticsVar {
    pub kind: ValueKind,
    pub value: Value,
    pub limits: Option<(Value, Value)>,
    pub settable: bool,
}

impl StaticsVar {
    /// The kinds inside the cell agree with its tag.
    pub open spec fn consistent(&self) -> bool {
        &&& value_kind(self.value) == self.kind
        &&& match self.limits {
            Option::None => true,
            Option::Some((lo, hi)) => value_kind(lo) == self.kind && value_kind(hi) == self.kind,
        }
    }

    /// The one write: succeeds exactly once, and only within the limits.
    pub fn set(&mut self, v: Value) -> (r: Result<(), StreamErrCode>)
        ensures
            final(self).kind == old(self).kind,
            final(self).limits == old(self).limits,
            r is Ok <==> old(self).settable && value_within(old(self).limits, v),
            r is Ok ==> final(self).value == v && !final(self).settable,
            !old(self).settable ==> r == Err::<(), StreamErrCode>(StreamErrCode::InvalidOperation),
            old(self).settable && !value_within(old(self).limits, v) ==> r == Err::<
                (),
                StreamErrCode,
            >(StreamErrCode::OutOfRange),
            r is Err ==> final(self).value == old(self).value && final(self).settable == old(self).settable,
    {
        if !self.settable {
            return Err(StreamErrCode::InvalidOperation);
        }
        let ok = match &self.limits {
            Option::None => true,
            Option::Some((lo, hi)) => value_le_exec(lo, &v) && value_le_exec(&v, hi),
        };
        if ok {
            self.value = v;
            self.settable = false;
            Ok(())
        } else {
            Err(StreamErrCode::OutOfRange)
        }
    }
}

/// A block-held state variable in tagged form.
pub struct StateVar {
    pub kind: ValueKind,
    pub value: Value,
}

impl StateVar {
    /// The kind inside the cell agrees with its tag.
    pub open spec fn consistent(&self) -> bool {
        value_kind(self.value) == self.kind
    }
}

/// The tagged limits carry the element type's own kind.
pub proof fn lemma_limits_kinds<T: MemElem>(l: Option<[T; 2]>)
    ensures
        match limits_value_spec(l) {
            Option::None => true,
            Option::Some((lo, hi)) => value_kind(lo) == T::kind_spec() && value_kind(hi)
                == T::kind_spec(),
        },
{
    match l {
        Option::Some(a) => {
            a[0].lemma_kind();
            a[1].lemma_kind();
        },
        Option::None => {},
    }
}

/// Build the tagged limits from typed ones, for block registration.
pub fn make_limits<T: MemElem>(l: &Option<[T; 2]>) -> (r: Option<(Value, Value)>)
    ensures
        r == limits_value_spec(*l),
{
    limits_value(l)
}

} // verus!
