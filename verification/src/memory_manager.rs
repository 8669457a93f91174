//! Memory variables — `Statics` (write-once), `State` (broadcasting),
//! `Parameter` (range-checked) — and the per-mode registry that snapshots
//! them for serialization.

use vstd::prelude::*;
use vstd::string::StringExecFns;
use std::sync::mpsc::SyncSender;
use crate::channel::sender_send;
use crate::connectors::DataHeader;
use crate::registry::NamedMap;
use crate::registry::IndexMap;
use crate::serialize::entries_chars;
use crate::serialize::entry_chars;
use crate::serialize::value_string;
use crate::streaming_data::StreamErrCode;
use crate::values::MemElem;
use crate::values::Value;

verus! {

/// A value lies within optional `[lo, hi]` limits.
pub open spec fn within_limits<T: MemElem>(limits: Option<[T; 2]>, v: T) -> bool {
    match limits {
        Option::None => true,
        Option::Some(l) => l[0].le_spec(v) && v.le_spec(l[1]),
    }
}

fn check_limits<T: MemElem>(limits: &Option<[T; 2]>, v: &T) -> (r: bool)
    ensures
        r == within_limits(*limits, *v),
{
    match limits {
        Option::None => true,
        Option::Some(l) => l[0].le(v) && v.le(&l[1]),
    }
}

/// A write-once configuration variable: the first user-level `set_value`
/// freezes it; construction does not consume the one write.
pub struct Statics<T> {
    header: DataHeader,
    value: T,
    limits: Option<[T; 2]>,
    settable: bool,
}

impl<T: MemElem> Statics<T> {
    pub closed spec fn name_spec(&self) -> Seq<char> {
        self.header.name@
    }

    pub closed spec fn value_spec(&self) -> T {
        self.value
    }

    pub closed spec fn limits_spec(&self) -> Option<[T; 2]> {
        self.limits
    }

    pub closed spec fn is_settable_spec(&self) -> bool {
        self.settable
    }

    pub fn new(name: &str, value: T, limits: Option<[T; 2]>) -> (r: Self)
        ensures
            r.name_spec() == name@,
            r.value_spec() == value,
            r.limits_spec() == limits,
            r.is_settable_spec(),
    {
        Statics { header: DataHeader { name: name.to_owned() }, value, limits, settable: true }
    }

    pub fn is_settable(&self) -> (r: bool)
        ensures
            r == self.is_settable_spec(),
    {
        self.settable
    }

    pub fn get_value(&self) -> (r: T)
        ensures
            r == self.value_spec(),
    {
        self.value
    }

    pub fn name(&self) -> (r: &str)
        ensures
            r@ == self.name_spec(),
    {
        self.header.name.as_str()
    }

    /// The tagged form of the current value, as the Memory Manager stores it.
    pub fn to_value(&self) -> (r: Value)
        ensures
            r == self.value_spec().to_value_spec(),
    {
        self.value.to_value()
    }

    /// The one write: succeeds exactly once, and only within the limits.
    pub fn set_value(&mut self, value: T) -> (r: Result<(), StreamErrCode>)
        ensures
            final(self).name_spec() == old(self).name_spec(),
            final(self).limits_spec() == old(self).limits_spec(),
            r is Ok <==> old(self).is_settable_spec() && within_limits(
                old(self).limits_spec(),
                value,
            ),
            r is Ok ==> final(self).value_spec() == value && !final(self).is_settable_spec(),
            !old(self).is_settable_spec() ==> r == Err::<(), StreamErrCode>(
                StreamErrCode::InvalidOperation,
            ),
            old(self).is_settable_spec() && !within_limits(old(self).limits_spec(), value) ==> r
                == Err::<(), StreamErrCode>(StreamErrCode::OutOfRange),
            r is Err ==> final(self).value_spec() == old(self).value_spec() && final(self).is_settable_spec() == old(self).is_settable_spec(),
    {
        if !self.settable {
            return Err(StreamErrCode::InvalidOperation);
        }
        if !check_limits(&self.limits, &value) {
            return Err(StreamErrCode::OutOfRange);
        }
        self.value = value;
        self.settable = false;
        Ok(())
    }

    /// Register this variable's current value into a memory mode under its
    /// own name, as construction does towards the active mode.
    pub fn register_in(&self, mode: &mut MemoryMode) -> (r: Result<(), StreamErrCode>)
        requires
            old(mode).wf(),
        ensures
            final(mode).wf(),
            final(mode).state_view() == old(mode).state_view(),
            final(mode).parameters_view() == old(mode).parameters_view(),
            r is Ok <==> !old(mode).statics_view().dom().contains(self.name_spec()),
            r is Ok ==> final(mode).statics_view() =~= old(mode).statics_view().insert(self.name_spec(), self.value_spec().to_value_spec()),
            r is Err ==> r == Err::<(), StreamErrCode>(StreamErrCode::AlreadyDefined) && final(mode).statics_view() == old(mode).statics_view(),
    {
        let value = self.to_value();
        mode.register_statics(self.header.name.as_str(), value)
    }

    /// The one write, with its registered snapshot kept in step: on
    /// success the mode's statics registry holds the new value under this
    /// variable's name; a refused write leaves both untouched.
    pub fn set_value_in(&mut self, value: T, mode: &mut MemoryMode) -> (r: Result<(), StreamErrCode>)
        requires
            old(mode).wf(),
        ensures
            final(mode).wf(),
            final(self).name_spec() == old(self).name_spec(),
            final(self).limits_spec() == old(self).limits_spec(),
            r is Ok <==> old(self).is_settable_spec() && within_limits(old(self).limits_spec(), value),
            r is Ok ==> final(self).value_spec() == value && !final(self).is_settable_spec(),
            !old(self).is_settable_spec() ==> r == Err::<(), StreamErrCode>(StreamErrCode::InvalidOperation),
            old(self).is_settable_spec() && !within_limits(old(self).limits_spec(), value) ==> r == Err::<(), StreamErrCode>(StreamErrCode::OutOfRange),
            r is Err ==> final(self).value_spec() == old(self).value_spec() && final(self).is_settable_spec() == old(self).is_settable_spec() && *final(mode) == *old(mode),
            r is Ok ==> final(mode).statics_view() =~= old(mode).statics_view().insert(old(self).name_spec(), value.to_value_spec()),
            final(mode).state_view() == old(mode).state_view(),
            final(mode).parameters_view() == old(mode).parameters_view(),
    {
        let r = self.set_value(value);
        match r {
            Ok(()) => {
                mode.update_statics(self.header.name.as_str(), value.to_value());
                Ok(())
            },
            Err(e) => Err(e),
        }
    }
}

/// A mutable variable that broadcasts every write to its listeners,
/// best-effort: a dropped listener is skipped, the write still succeeds.
#[verifier::reject_recursive_types(T)]
pub struct State<T> {
    header: DataHeader,
    value: T,
    senders: Vec<SyncSender<T>>,
}

impl<T: MemElem> State<T> {
    pub closed spec fn name_spec(&self) -> Seq<char> {
        self.header.name@
    }

    pub closed spec fn value_spec(&self) -> T {
        self.value
    }

    pub closed spec fn listener_count(&self) -> nat {
        self.senders@.len()
    }

    pub fn new(name: &str, value: T) -> (r: Self)
        ensures
            r.name_spec() == name@,
            r.value_spec() == value,
            r.listener_count() == 0,
    {
        State { header: DataHeader { name: name.to_owned() }, value, senders: Vec::new() }
    }

    pub fn get_value(&self) -> (r: T)
        ensures
            r == self.value_spec(),
    {
        self.value
    }

    pub fn name(&self) -> (r: &str)
        ensures
            r@ == self.name_spec(),
    {
        self.header.name.as_str()
    }

    /// The tagged form of the current value, as the Memory Manager stores it.
    pub fn to_value(&self) -> (r: Value)
        ensures
            r == self.value_spec().to_value_spec(),
    {
        self.value.to_value()
    }

    /// Attach one listener channel; later writes are broadcast to it.
    pub fn connect(&mut self, sender: SyncSender<T>)
        ensures
            final(self).name_spec() == old(self).name_spec(),
            final(self).value_spec() == old(self).value_spec(),
            final(self).listener_count() == old(self).listener_count() + 1,
    {
        self.senders.push(sender);
    }

    /// Broadcast the current value to every listener, ignoring failures.
    pub fn send(&self) {
        let n = self.senders.len();
        let mut i: usize = 0;
        while i < n
            invariant
                i <= n,
                n == self.senders@.len(),
            decreases n - i,
        {
            let _ = sender_send(&self.senders[i], self.value);
            i = i + 1;
        }
    }

    /// Store a new value and broadcast it; the write always succeeds.
    pub fn set_value(&mut self, value: T) -> (r: Result<(), StreamErrCode>)
        ensures
            r == Ok::<(), StreamErrCode>(()),
            final(self).name_spec() == old(self).name_spec(),
            final(self).value_spec() == value,
            final(self).listener_count() == old(self).listener_count(),
    {
        self.value = value;
        self.send();
        Ok(())
    }

    /// Register this variable's current value into a memory mode under its
    /// own name, as construction does towards the active mode.
    pub fn register_in(&self, mode: &mut MemoryMode) -> (r: Result<(), StreamErrCode>)
        requires
            old(mode).wf(),
        ensures
            final(mode).wf(),
            final(mode).statics_view() == old(mode).statics_view(),
            final(mode).parameters_view() == old(mode).parameters_view(),
            r is Ok <==> !old(mode).state_view().dom().contains(self.name_spec()),
            r is Ok ==> final(mode).state_view() =~= old(mode).state_view().insert(self.name_spec(), self.value_spec().to_value_spec()),
            r is Err ==> r == Err::<(), StreamErrCode>(StreamErrCode::AlreadyDefined) && final(mode).state_view() == old(mode).state_view(),
    {
        let value = self.to_value();
        mode.register_state(self.header.name.as_str(), value)
    }

    /// Store, broadcast, and keep the registered snapshot in step: the
    /// mode's state registry holds the new value under this variable's
    /// name afterwards.
    pub fn set_value_in(&mut self, value: T, mode: &mut MemoryMode) -> (r: Result<(), StreamErrCode>)
        requires
            old(mode).wf(),
        ensures
            final(mode).wf(),
            r == Ok::<(), StreamErrCode>(()),
            final(self).name_spec() == old(self).name_spec(),
            final(self).value_spec() == value,
            final(self).listener_count() == old(self).listener_count(),
            final(mode).state_view() =~= old(mode).state_view().insert(old(self).name_spec(), value.to_value_spec()),
            final(mode).statics_view() == old(mode).statics_view(),
            final(mode).parameters_view() == old(mode).parameters_view(),
    {
        let r = self.set_value(value);
        mode.update_state(self.header.name.as_str(), value.to_value());
        r
    }
}

/// A mutable, range-checked variable: writes outside the limits are
/// rejected with `OutOfRange` and leave the stored value unchanged.
pub struct Parameter<T> {
    header: DataHeader,
    value: T,
    default: T,
    limits: Option<[T; 2]>,
}

impl<T: MemElem> Parameter<T> {
    pub closed spec fn name_spec(&self) -> Seq<char> {
        self.header.name@
    }

    pub closed spec fn value_spec(&self) -> T {
        self.value
    }

    pub closed spec fn default_spec(&self) -> T {
        self.default
    }

    pub closed spec fn limits_spec(&self) -> Option<[T; 2]> {
        self.limits
    }

    pub fn new(name: &str, value: T, limits: Option<[T; 2]>) -> (r: Self)
        ensures
            r.name_spec() == name@,
            r.value_spec() == value,
            r.default_spec() == value,
            r.limits_spec() == limits,
    {
        Parameter {
            header: DataHeader { name: name.to_owned() },
            value,
            default: value,
            limits,
        }
    }

    pub fn get_value(&self) -> (r: T)
        ensures
            r == self.value_spec(),
    {
        self.value
    }

    pub fn name(&self) -> (r: &str)
        ensures
            r@ == self.name_spec(),
    {
        self.header.name.as_str()
    }

    /// The tagged form of the current value, as the Memory Manager stores it.
    pub fn to_value(&self) -> (r: Value)
        ensures
            r == self.value_spec().to_value_spec(),
    {
        self.value.to_value()
    }

    /// Store a new value if it lies within the limits; reject it otherwise.
    pub fn set_value(&mut self, value: T) -> (r: Result<(), StreamErrCode>)
        ensures
            final(self).name_spec() == old(self).name_spec(),
            final(self).default_spec() == old(self).default_spec(),
            final(self).limits_spec() == old(self).limits_spec(),
            r is Ok <==> within_limits(old(self).limits_spec(), value),
            r is Ok ==> final(self).value_spec() == value,
            r is Err ==> r == Err::<(), StreamErrCode>(StreamErrCode::OutOfRange) && final(self).value_spec() == old(self).value_spec(),
    {
        if !check_limits(&self.limits, &value) {
            return Err(StreamErrCode::OutOfRange);
        }
        self.value = value;
        Ok(())
    }

    /// Register this variable's current value into a memory mode under its
    /// own name, as construction does towards the active mode.
    pub fn register_in(&self, mode: &mut MemoryMode) -> (r: Result<(), StreamErrCode>)
        requires
            old(mode).wf(),
        ensures
            final(mode).wf(),
            final(mode).state_view() == old(mode).state_view(),
            final(mode).statics_view() == old(mode).statics_view(),
            r is Ok <==> !old(mode).parameters_view().dom().contains(self.name_spec()),
            r is Ok ==> final(mode).parameters_view() =~= old(mode).parameters_view().insert(self.name_spec(), self.value_spec().to_value_spec()),
            r is Err ==> r == Err::<(), StreamErrCode>(StreamErrCode::AlreadyDefined) && final(mode).parameters_view() == old(mode).parameters_view(),
    {
        let value = self.to_value();
        mode.register_parameters(self.header.name.as_str(), value)
    }

    /// A range-checked write with its registered snapshot kept in step: an
    /// accepted value reaches both the cell and the mode's parameter
    /// registry; a rejected one reaches neither.
    pub fn set_value_in(&mut self, value: T, mode: &mut MemoryMode) -> (r: Result<(), StreamErrCode>)
        requires
            old(mode).wf(),
        ensures
            final(mode).wf(),
            final(self).name_spec() == old(self).name_spec(),
            final(self).default_spec() == old(self).default_spec(),
            final(self).limits_spec() == old(self).limits_spec(),
            r is Ok <==> within_limits(old(self).limits_spec(), value),
            r is Ok ==> final(self).value_spec() == value,
            r is Err ==> r == Err::<(), StreamErrCode>(StreamErrCode::OutOfRange) && final(self).value_spec() == old(self).value_spec() && *final(mode) == *old(mode),
            r is Ok ==> final(mode).parameters_view() =~= old(mode).parameters_view().insert(old(self).name_spec(), value.to_value_spec()),
            final(mode).state_view() == old(mode).state_view(),
            final(mode).statics_view() == old(mode).statics_view(),
    {
        let r = self.set_value(value);
        match r {
            Ok(()) => {
                mode.update_parameters(self.header.name.as_str(), value.to_value());
                Ok(())
            },
            Err(e) => Err(e),
        }
    }
}

/// The JSON text of one registry of variables, fragments in registration
/// order.
pub fn serialize_entries(m: &NamedMap<Value>) -> (s: String)
    requires
        m.wf(),
    ensures
        s@ == entries_chars(m.seq_spec()),
{
    let n = m.len();
    let mut s = String::new();
    let mut i: usize = 0;
    assert(m.seq_spec().take(0) =~= Seq::<(Seq<char>, Value)>::empty());
    while i < n
        invariant
            i <= n,
            n == m.seq_spec().len(),
            m.wf(),
            s@ =~= entries_chars(m.seq_spec().take(i as int)),
        decreases n - i,
    {
        let ghost prefix = s@;
        let key = m.key_at(i);
        let value = m.at(i);
        proof {
            reveal_strlit("\"");
            reveal_strlit("\":");
        }
        s.append("\"");
        s.append(key.as_str());
        s.append("\":");
        let rendered = value_string(value);
        s.append(rendered.as_str());
        proof {
            let entry = m.seq_spec()[i as int];
            assert(s@ =~= prefix.add(entry_chars(entry.0, entry.1)));
            assert(m.seq_spec().take(i + 1).drop_last() =~= m.seq_spec().take(i as int));
            assert(m.seq_spec().take(i + 1).last() == entry);
            assert(entries_chars(m.seq_spec().take(i + 1)) == entries_chars(
                m.seq_spec().take(i as int),
            ).add(entry_chars(entry.0, entry.1)));
        }
        i = i + 1;
    }
    assert(m.seq_spec().take(n as int) =~= m.seq_spec());
    s
}

/// The text of a whole memory snapshot: three sub-objects, one per kind.
pub open spec fn snapshot_chars(
    st: Seq<(Seq<char>, Value)>,
    sta: Seq<(Seq<char>, Value)>,
    par: Seq<(Seq<char>, Value)>,
) -> Seq<char> {
    "{\"memory_mapped\":{\"state\":{"@.add(entries_chars(st)).add("},\"statics\":{"@).add(
        entries_chars(sta),
    ).add("},\"parameters\":{"@).add(entries_chars(par)).add("}}}"@)
}

/// One mode's registry: three maps from qualified names to snapshot values.
pub struct MemoryMode {
    mapped_state: NamedMap<Value>,
    mapped_statics: NamedMap<Value>,
    mapped_parameters: NamedMap<Value>,
}

impl MemoryMode {
    pub closed spec fn state_view(&self) -> Map<Seq<char>, Value> {
        self.mapped_state@
    }

    pub closed spec fn statics_view(&self) -> Map<Seq<char>, Value> {
        self.mapped_statics@
    }

    pub closed spec fn parameters_view(&self) -> Map<Seq<char>, Value> {
        self.mapped_parameters@
    }

    pub closed spec fn state_seq(&self) -> Seq<(Seq<char>, Value)> {
        self.mapped_state.seq_spec()
    }

    pub closed spec fn statics_seq(&self) -> Seq<(Seq<char>, Value)> {
        self.mapped_statics.seq_spec()
    }

    pub closed spec fn parameters_seq(&self) -> Seq<(Seq<char>, Value)> {
        self.mapped_parameters.seq_spec()
    }

    pub closed spec fn wf(&self) -> bool {
        self.mapped_state.wf() && self.mapped_statics.wf() && self.mapped_parameters.wf()
    }

    pub fn new() -> (r: Self)
        ensures
            r.wf(),
            r.state_view() =~= Map::<Seq<char>, Value>::empty(),
            r.statics_view() =~= Map::<Seq<char>, Value>::empty(),
            r.parameters_view() =~= Map::<Seq<char>, Value>::empty(),
            r.state_seq() =~= Seq::<(Seq<char>, Value)>::empty(),
            r.statics_seq() =~= Seq::<(Seq<char>, Value)>::empty(),
            r.parameters_seq() =~= Seq::<(Seq<char>, Value)>::empty(),
    {
        MemoryMode {
            mapped_state: NamedMap::new(),
            mapped_statics: NamedMap::new(),
            mapped_parameters: NamedMap::new(),
        }
    }

    /// Register a state snapshot; a second registration of the same
    /// qualified name is refused with `AlreadyDefined`.
    pub fn register_state(&mut self, key: &str, value: Value) -> (r: Result<(), StreamErrCode>)
        requires
            old(self).wf(),
        ensures
            final(self).wf(),
            final(self).statics_view() == old(self).statics_view(),
            final(self).parameters_view() == old(self).parameters_view(),
            r is Ok <==> !old(self).state_view().dom().contains(key@),
            r is Ok ==> final(self).state_view() =~= old(self).state_view().insert(key@, value),
            r is Err ==> r == Err::<(), StreamErrCode>(StreamErrCode::AlreadyDefined) && final(self).state_view() == old(self).state_view(),
    {
        if self.mapped_state.insert_new(key.to_owned(), value) {
            Ok(())
        } else {
            Err(StreamErrCode::AlreadyDefined)
        }
    }

    /// Register a statics snapshot; duplicates are refused.
    pub fn register_statics(&mut self, key: &str, value: Value) -> (r: Result<(), StreamErrCode>)
        requires
            old(self).wf(),
        ensures
            final(self).wf(),
            final(self).state_view() == old(self).state_view(),
            final(self).parameters_view() == old(self).parameters_view(),
            r is Ok <==> !old(self).statics_view().dom().contains(key@),
            r is Ok ==> final(self).statics_view() =~= old(self).statics_view().insert(
                key@,
                value,
            ),
            r is Err ==> r == Err::<(), StreamErrCode>(StreamErrCode::AlreadyDefined) && final(self).statics_view() == old(self).statics_view(),
    {
        if self.mapped_statics.insert_new(key.to_owned(), value) {
            Ok(())
        } else {
            Err(StreamErrCode::AlreadyDefined)
        }
    }

    /// Register a parameter snapshot; duplicates are refused.
    pub fn register_parameters(
        &mut self,
        key: &str,
        value: Value,
    ) -> (r: Result<(), StreamErrCode>)
        requires
            old(self).wf(),
        ensures
            final(self).wf(),
            final(self).state_view() == old(self).state_view(),
            final(self).statics_view() == old(self).statics_view(),
            r is Ok <==> !old(self).parameters_view().dom().contains(key@),
            r is Ok ==> final(self).parameters_view() =~= old(self).parameters_view().insert(
                key@,
                value,
            ),
            r is Err ==> r == Err::<(), StreamErrCode>(StreamErrCode::AlreadyDefined) && final(self).parameters_view() == old(self).parameters_view(),
    {
        if self.mapped_parameters.insert_new(key.to_owned(), value) {
            Ok(())
        } else {
            Err(StreamErrCode::AlreadyDefined)
        }
    }

    /// Overwrite a state snapshot unconditionally, so that the snapshot
    /// tracks the live variable's current value.
    pub fn update_state(&mut self, key: &str, value: Value)
        requires
            old(self).wf(),
        ensures
            final(self).wf(),
            final(self).state_view() =~= old(self).state_view().insert(key@, value),
            final(self).statics_view() == old(self).statics_view(),
            final(self).parameters_view() == old(self).parameters_view(),
    {
        self.mapped_state.upsert(key.to_owned(), value);
    }

    /// Overwrite a statics snapshot unconditionally.
    pub fn update_statics(&mut self, key: &str, value: Value)
        requires
            old(self).wf(),
        ensures
            final(self).wf(),
            final(self).statics_view() =~= old(self).statics_view().insert(key@, value),
            final(self).state_view() == old(self).state_view(),
            final(self).parameters_view() == old(self).parameters_view(),
    {
        self.mapped_statics.upsert(key.to_owned(), value);
    }

    /// Overwrite a parameter snapshot unconditionally.
    pub fn update_parameters(&mut self, key: &str, value: Value)
        requires
            old(self).wf(),
        ensures
            final(self).wf(),
            final(self).parameters_view() =~= old(self).parameters_view().insert(key@, value),
            final(self).state_view() == old(self).state_view(),
            final(self).statics_view() == old(self).statics_view(),
    {
        self.mapped_parameters.upsert(key.to_owned(), value);
    }

    /// The snapshot value registered under a qualified name, if any.
    pub fn get_state(&self, key: &String) -> (r: Option<Value>)
        requires
            self.wf(),
        ensures
            match r {
                Some(v) => self.state_view().dom().contains(key@) && v == self.state_view()[key@],
                None => !self.state_view().dom().contains(key@),
            },
    {
        match self.mapped_state.get(key) {
            Some(v) => Some(*v),
            None => None,
        }
    }

    /// The statics snapshot registered under a qualified name, if any.
    pub fn get_statics(&self, key: &String) -> (r: Option<Value>)
        requires
            self.wf(),
        ensures
            match r {
                Some(v) => self.statics_view().dom().contains(key@) && v == self.statics_view()[key@],
                None => !self.statics_view().dom().contains(key@),
            },
    {
        match self.mapped_statics.get(key) {
            Some(v) => Some(*v),
            None => None,
        }
    }

    /// The parameter snapshot registered under a qualified name, if any.
    pub fn get_parameters(&self, key: &String) -> (r: Option<Value>)
        requires
            self.wf(),
        ensures
            match r {
                Some(v) => self.parameters_view().dom().contains(key@) && v
                    == self.parameters_view()[key@],
                None => !self.parameters_view().dom().contains(key@),
            },
    {
        match self.mapped_parameters.get(key) {
            Some(v) => Some(*v),
            None => None,
        }
    }

    /// The whole snapshot as one JSON object.
    pub fn serialize_all(&self) -> (s: String)
        requires
            self.wf(),
        ensures
            s@ == snapshot_chars(self.state_seq(), self.statics_seq(), self.parameters_seq()),
    {
        proof {
            reveal_strlit("{\"memory_mapped\":{\"state\":{");
            reveal_strlit("},\"statics\":{");
            reveal_strlit("},\"parameters\":{");
            reveal_strlit("}}}");
        }
        let mut s = String::new();
        s.append("{\"memory_mapped\":{\"state\":{");
        let st = serialize_entries(&self.mapped_state);
        s.append(st.as_str());
        s.append("},\"statics\":{");
        let sta = serialize_entries(&self.mapped_statics);
        s.append(sta.as_str());
        s.append("},\"parameters\":{");
        let par = serialize_entries(&self.mapped_parameters);
        s.append(par.as_str());
        s.append("}}}");
        proof {
            assert(s@ =~= snapshot_chars(
                self.state_seq(),
                self.statics_seq(),
                self.parameters_seq(),
            ));
        }
        s
    }
}

/// The registry of memory modes, partitioned by mode index, with the index
/// of the mode that new registrations and updates go to.
pub struct MemoryManager {
    memory_modes: IndexMap<MemoryMode>,
    current_mode_index: usize,
}

impl MemoryManager {
    pub closed spec fn modes_view(&self) -> Map<int, MemoryMode> {
        self.memory_modes@
    }

    pub closed spec fn current_spec(&self) -> usize {
        self.current_mode_index
    }

    pub closed spec fn wf(&self) -> bool {
        self.memory_modes.wf() && (forall|i: int|
            self.memory_modes@.dom().contains(i) ==> (#[trigger] self.memory_modes@[i]).wf())
    }

    pub fn new() -> (r: Self)
        ensures
            r.wf(),
            r.modes_view() =~= Map::<int, MemoryMode>::empty(),
            r.current_spec() == 0,
    {
        MemoryManager { memory_modes: IndexMap::new(), current_mode_index: 0 }
    }

    /// Add (or reset) the mode stored under an index.
    pub fn add_mode(&mut self, index: usize)
        requires
            old(self).wf(),
        ensures
            final(self).wf(),
            final(self).current_spec() == old(self).current_spec(),
            final(self).modes_view().dom() =~= old(self).modes_view().dom().insert(index as int),
            final(self).modes_view()[index as int].state_view() =~= Map::<
                Seq<char>,
                Value,
            >::empty(),
            final(self).modes_view()[index as int].statics_view() =~= Map::<
                Seq<char>,
                Value,
            >::empty(),
            final(self).modes_view()[index as int].parameters_view() =~= Map::<
                Seq<char>,
                Value,
            >::empty(),
            forall|j: int|
                j != index as int && old(self).modes_view().dom().contains(j) ==> final(self).modes_view()[j] == #[trigger] old(self).modes_view()[j],
    {
        self.memory_modes.upsert(index, MemoryMode::new());
    }

    /// Point registrations and updates at another mode index.
    pub fn set_mode(&mut self, index: usize)
        requires
            old(self).wf(),
        ensures
            final(self).wf(),
            final(self).current_spec() == index,
            final(self).modes_view() == old(self).modes_view(),
    {
        self.current_mode_index = index;
    }

    pub fn current_mode_index(&self) -> (r: usize)
        ensures
            r == self.current_spec(),
    {
        self.current_mode_index
    }

    pub fn has_mode(&self, index: usize) -> (r: bool)
        requires
            self.wf(),
        ensures
            r == self.modes_view().dom().contains(index as int),
    {
        self.memory_modes.contains_key(index)
    }

    /// Shared access to the mode registrations currently go to.
    pub fn get_memory_current_mode(&self) -> (r: Option<&MemoryMode>)
        requires
            self.wf(),
        ensures
            match r {
                Some(m) => self.modes_view().dom().contains(self.current_spec() as int) && *m
                    == self.modes_view()[self.current_spec() as int],
                None => !self.modes_view().dom().contains(self.current_spec() as int),
            },
    {
        self.memory_modes.get(self.current_mode_index)
    }

    /// Shared access to the mode stored under an index.
    pub fn get_memory_mode(&self, index: usize) -> (r: Option<&MemoryMode>)
        requires
            self.wf(),
        ensures
            match r {
                Some(m) => self.modes_view().dom().contains(index as int) && *m
                    == self.modes_view()[index as int],
                None => !self.modes_view().dom().contains(index as int),
            },
    {
        self.memory_modes.get(index)
    }

    /// Mutable access to the mode stored under an index.
    pub fn mode_at_mut(&mut self, index: usize) -> (m: &mut MemoryMode)
        requires
            old(self).wf(),
            old(self).modes_view().dom().contains(index as int),
        ensures
            *m == old(self).modes_view()[index as int],
            m.wf(),
            final(self).current_spec() == old(self).current_spec(),
            final(self).modes_view() =~= old(self).modes_view().insert(index as int, *final(m)),
            final(m).wf() ==> final(self).wf(),
    {
        self.memory_modes.get_mut(index)
    }

    /// The JSON snapshot of the current mode; the empty snapshot when no
    /// mode is registered under the current index.
    pub fn serialize_all(&self) -> (s: String)
        requires
            self.wf(),
        ensures
            self.modes_view().dom().contains(self.current_spec() as int) ==> s@ == snapshot_chars(
                self.modes_view()[self.current_spec() as int].state_seq(),
                self.modes_view()[self.current_spec() as int].statics_seq(),
                self.modes_view()[self.current_spec() as int].parameters_seq(),
            ),
            !self.modes_view().dom().contains(self.current_spec() as int) ==> s@ == snapshot_chars(
                Seq::empty(),
                Seq::empty(),
                Seq::empty(),
            ),
    {
        match self.memory_modes.get(self.current_mode_index) {
            Some(mode) => mode.serialize_all(),
            None => {
                let empty = MemoryMode::new();
                let s = empty.serialize_all();
                proof {
                    assert(empty.state_seq() =~= Seq::<(Seq<char>, Value)>::empty());
                    assert(empty.statics_seq() =~= Seq::<(Seq<char>, Value)>::empty());
                    assert(empty.parameters_seq() =~= Seq::<(Seq<char>, Value)>::empty());
                }
                s
            },
        }
    }
}

} // verus!
