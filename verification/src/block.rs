//! The stream block substrate: five name-indexed maps (inputs, outputs,
//! parameters, statics, state), a lifecycle state, and the typed API over
//! them. Registration keys are qualified as `"<block>.<local>"`.

use vstd::prelude::*;
use vstd::string::StringExecFns;
use std::sync::mpsc::SyncSender;
use crate::cells::BlockElem;
use crate::cells::ConnCell;
use crate::cells::OutCell;
use crate::cells::ParamVar;
use crate::cells::StateVar;
use crate::cells::StaticsVar;
use crate::cells::conn_kind;
use crate::cells::out_fan_out;
use crate::cells::out_kind;
use crate::cells::lemma_limits_kinds;
use crate::cells::limits_value_spec;
use crate::cells::make_limits;
use crate::cells::value_within;
use crate::connectors::Input;
use crate::connectors::Output;
use crate::registry::NamedMap;
use crate::serialize::push_char;
use crate::streaming_data::StreamErrCode;
use crate::streaming_data::StreamingState;

verus! {

/// The qualified form of a local name: `"<block>.<local>"`.
pub open spec fn qualified_name_spec(block: Seq<char>, local: Seq<char>) -> Seq<char> {
    block.add(seq!['.']).add(local)
}

/// Every parameter cell in a registry carries values of its own kind.
pub open spec fn params_consistent(m: Map<Seq<char>, ParamVar>) -> bool {
    forall|k: Seq<char>| m.dom().contains(k) ==> (#[trigger] m[k]).consistent()
}

/// Every statics cell in a registry carries values of its own kind.
pub open spec fn statics_consistent(m: Map<Seq<char>, StaticsVar>) -> bool {
    forall|k: Seq<char>| m.dom().contains(k) ==> (#[trigger] m[k]).consistent()
}

/// Every state cell in a registry carries values of its own kind.
pub open spec fn state_consistent(m: Map<Seq<char>, StateVar>) -> bool {
    forall|k: Seq<char>| m.dom().contains(k) ==> (#[trigger] m[k]).consistent()
}

/// Every statics cell in a registry has received its one write.
pub open spec fn all_frozen(m: Map<Seq<char>, StaticsVar>) -> bool {
    forall|k: Seq<char>| m.dom().contains(k) ==> !(#[trigger] m[k]).settable
}

/// A processing block's uniform container: the five registries, the block's
/// logical name, and its lifecycle state.
pub struct StreamBlock {
    name: String,
    inputs: NamedMap<ConnCell>,
    outputs: NamedMap<OutCell>,
    parameters: NamedMap<ParamVar>,
    statics: NamedMap<StaticsVar>,
    state: NamedMap<StateVar>,
    proc_state: StreamingState,
}

impl StreamBlock {
    pub closed spec fn name_spec(&self) -> Seq<char> {
        self.name@
    }

    pub closed spec fn state_spec(&self) -> StreamingState {
        self.proc_state
    }

    pub closed spec fn inputs_view(&self) -> Map<Seq<char>, ConnCell> {
        self.inputs@
    }

    pub closed spec fn outputs_view(&self) -> Map<Seq<char>, OutCell> {
        self.outputs@
    }

    pub closed spec fn parameters_view(&self) -> Map<Seq<char>, ParamVar> {
        self.parameters@
    }

    pub closed spec fn statics_view(&self) -> Map<Seq<char>, StaticsVar> {
        self.statics@
    }

    pub closed spec fn state_view(&self) -> Map<Seq<char>, StateVar> {
        self.state@
    }

    pub closed spec fn inputs_seq(&self) -> Seq<(Seq<char>, ConnCell)> {
        self.inputs.seq_spec()
    }

    pub closed spec fn outputs_seq(&self) -> Seq<(Seq<char>, OutCell)> {
        self.outputs.seq_spec()
    }

    pub closed spec fn parameters_seq(&self) -> Seq<(Seq<char>, ParamVar)> {
        self.parameters.seq_spec()
    }

    pub closed spec fn statics_seq(&self) -> Seq<(Seq<char>, StaticsVar)> {
        self.statics.seq_spec()
    }

    pub closed spec fn state_seq(&self) -> Seq<(Seq<char>, StateVar)> {
        self.state.seq_spec()
    }

    /// Every statics cell has received its one write.
    pub open spec fn all_statics_frozen(&self) -> bool {
        all_frozen(self.statics_view())
    }

    /// The maps have unique keys and every variable cell carries values of
    /// its own kind.
    pub closed spec fn wf(&self) -> bool {
        &&& self.inputs.wf()
        &&& self.outputs.wf()
        &&& self.parameters.wf()
        &&& self.statics.wf()
        &&& self.state.wf()
        &&& params_consistent(self.parameters_view())
        &&& statics_consistent(self.statics_view())
        &&& state_consistent(self.state_view())
    }

    /// The parts a lifecycle transition leaves untouched.
    pub open spec fn same_config(a: StreamBlock, b: StreamBlock) -> bool {
        &&& a.name_spec() == b.name_spec()
        &&& a.inputs_view() == b.inputs_view()
        &&& a.outputs_view() == b.outputs_view()
        &&& a.parameters_view() == b.parameters_view()
        &&& a.statics_view() == b.statics_view()
        &&& a.state_view() == b.state_view()
        &&& a.statics_seq() == b.statics_seq()
    }

    pub fn new(name: &str) -> (r: Self)
        ensures
            r.wf(),
            r.name_spec() == name@,
            r.state_spec() == StreamingState::Null,
            r.inputs_view() =~= Map::<Seq<char>, ConnCell>::empty(),
            r.outputs_view() =~= Map::<Seq<char>, OutCell>::empty(),
            r.parameters_view() =~= Map::<Seq<char>, ParamVar>::empty(),
            r.statics_view() =~= Map::<Seq<char>, StaticsVar>::empty(),
            r.state_view() =~= Map::<Seq<char>, StateVar>::empty(),
    {
        StreamBlock {
            name: name.to_owned(),
            inputs: NamedMap::new(),
            outputs: NamedMap::new(),
            parameters: NamedMap::new(),
            statics: NamedMap::new(),
            state: NamedMap::new(),
            proc_state: StreamingState::Null,
        }
    }

    /// The qualified registry key of a local name.
    pub fn get_qualified_name(&self, local: &str) -> (q: String)
        ensures
            q@ == qualified_name_spec(self.name_spec(), local@),
    {
        let mut q = self.name.clone();
        push_char(&mut q, '.');
        q.append(local);
        proof {
            assert(q@ =~= qualified_name_spec(self.name_spec(), local@));
        }
        q
    }

    pub fn check_state(&self, state: StreamingState) -> (r: bool)
        ensures
            r == (self.state_spec() == state),
    {
        self.proc_state == state
    }

    pub fn set_state(&mut self, state: StreamingState)
        ensures
            final(self).state_spec() == state,
            final(self).wf() == old(self).wf(),
            Self::same_config(*old(self), *final(self)),
    {
        self.proc_state = state;
    }

    /// Register a fresh typed input under the qualified name.
    pub fn new_input<T: BlockElem>(&mut self, key: &str) -> (r: Result<(), StreamErrCode>)
        requires
            old(self).wf(),
        ensures
            final(self).wf(),
            final(self).name_spec() == old(self).name_spec(),
            final(self).state_spec() == old(self).state_spec(),
            final(self).outputs_view() == old(self).outputs_view(),
            final(self).parameters_view() == old(self).parameters_view(),
            final(self).statics_view() == old(self).statics_view(),
            final(self).state_view() == old(self).state_view(),
            r is Ok <==> !old(self).inputs_view().dom().contains(
                qualified_name_spec(old(self).name_spec(), key@),
            ),
            r is Err ==> r == Err::<(), StreamErrCode>(StreamErrCode::AlreadyDefined) && final(self).inputs_view() == old(self).inputs_view(),
            r is Ok ==> final(self).inputs_view().dom() =~= old(self).inputs_view().dom().insert(
                qualified_name_spec(old(self).name_spec(), key@),
            ),
            r is Ok ==> conn_kind(
                final(self).inputs_view()[qualified_name_spec(old(self).name_spec(), key@)],
            ) == T::kind_spec(),
            r is Ok ==> forall|k: Seq<char>|
                k != qualified_name_spec(old(self).name_spec(), key@) && old(self).inputs_view().dom().contains(k) ==> final(self).inputs_view()[k] == #[trigger] old(self).inputs_view()[k],
    {
        let qn = self.get_qualified_name(key);
        let cell = T::wrap_input(Input::<T>::new(qn.as_str()));
        proof {
            T::lemma_input_view(cell);
        }
        if self.inputs.insert_new(qn, cell) {
            Ok(())
        } else {
            Err(StreamErrCode::AlreadyDefined)
        }
    }

    /// Register a fresh typed output under the qualified name.
    pub fn new_output<T: BlockElem>(&mut self, key: &str) -> (r: Result<(), StreamErrCode>)
        requires
            old(self).wf(),
        ensures
            final(self).wf(),
            final(self).name_spec() == old(self).name_spec(),
            final(self).state_spec() == old(self).state_spec(),
            final(self).inputs_view() == old(self).inputs_view(),
            final(self).parameters_view() == old(self).parameters_view(),
            final(self).statics_view() == old(self).statics_view(),
            final(self).state_view() == old(self).state_view(),
            r is Ok <==> !old(self).outputs_view().dom().contains(
                qualified_name_spec(old(self).name_spec(), key@),
            ),
            r is Err ==> r == Err::<(), StreamErrCode>(StreamErrCode::AlreadyDefined) && final(self).outputs_view() == old(self).outputs_view(),
            r is Ok ==> final(self).outputs_view().dom() =~= old(self).outputs_view().dom().insert(
                qualified_name_spec(old(self).name_spec(), key@),
            ),
            r is Ok ==> out_kind(
                final(self).outputs_view()[qualified_name_spec(old(self).name_spec(), key@)],
            ) == T::kind_spec() && out_fan_out(
                final(self).outputs_view()[qualified_name_spec(old(self).name_spec(), key@)],
            ) == 0,
            r is Ok ==> forall|k: Seq<char>|
                k != qualified_name_spec(old(self).name_spec(), key@) && old(self).outputs_view().dom().contains(k) ==> final(self).outputs_view()[k]
                    == #[trigger] old(self).outputs_view()[k],
    {
        let qn = self.get_qualified_name(key);
        let cell = T::wrap_output(Output::<T>::new(qn.as_str()));
        proof {
            T::lemma_output_view(cell);
        }
        if self.outputs.insert_new(qn, cell) {
            Ok(())
        } else {
            Err(StreamErrCode::AlreadyDefined)
        }
    }

    /// Register a fresh parameter with its value, default and limits.
    pub fn new_parameter<T: BlockElem>(
        &mut self,
        key: &str,
        value: T,
        limits: Option<[T; 2]>,
    ) -> (r: Result<(), StreamErrCode>)
        requires
            old(self).wf(),
        ensures
            final(self).wf(),
            final(self).name_spec() == old(self).name_spec(),
            final(self).state_spec() == old(self).state_spec(),
            final(self).inputs_view() == old(self).inputs_view(),
            final(self).outputs_view() == old(self).outputs_view(),
            final(self).statics_view() == old(self).statics_view(),
            final(self).state_view() == old(self).state_view(),
            r is Ok <==> !old(self).parameters_view().dom().contains(
                qualified_name_spec(old(self).name_spec(), key@),
            ),
            r is Err ==> r == Err::<(), StreamErrCode>(StreamErrCode::AlreadyDefined) && final(self).parameters_view() == old(self).parameters_view(),
            r is Ok ==> final(self).parameters_view() =~= old(self).parameters_view().insert(
                qualified_name_spec(old(self).name_spec(), key@),
                (ParamVar {
                    kind: T::kind_spec(),
                    value: value.to_value_spec(),
                    default: value.to_value_spec(),
                    limits: limits_value_spec(limits),
                }),
            ),
    {
        let qn = self.get_qualified_name(key);
        let cell = ParamVar {
            kind: T::kind(),
            value: value.to_value(),
            default: value.to_value(),
            limits: make_limits(&limits),
        };
        proof {
            value.lemma_kind();
            lemma_limits_kinds::<T>(limits);
        }
        if self.parameters.insert_new(qn, cell) {
            Ok(())
        } else {
            Err(StreamErrCode::AlreadyDefined)
        }
    }

    /// Register a fresh statics cell, still settable, with its limits.
    pub fn new_statics<T: BlockElem>(
        &mut self,
        key: &str,
        value: T,
        limits: Option<[T; 2]>,
    ) -> (r: Result<(), StreamErrCode>)
        requires
            old(self).wf(),
        ensures
            final(self).wf(),
            final(self).name_spec() == old(self).name_spec(),
            final(self).state_spec() == old(self).state_spec(),
            final(self).inputs_view() == old(self).inputs_view(),
            final(self).outputs_view() == old(self).outputs_view(),
            final(self).parameters_view() == old(self).parameters_view(),
            final(self).state_view() == old(self).state_view(),
            r is Ok <==> !old(self).statics_view().dom().contains(
                qualified_name_spec(old(self).name_spec(), key@),
            ),
            r is Err ==> r == Err::<(), StreamErrCode>(StreamErrCode::AlreadyDefined) && final(self).statics_view() == old(self).statics_view(),
            r is Ok ==> final(self).statics_view() =~= old(self).statics_view().insert(
                qualified_name_spec(old(self).name_spec(), key@),
                (StaticsVar {
                    kind: T::kind_spec(),
                    value: value.to_value_spec(),
                    limits: limits_value_spec(limits),
                    settable: true,
                }),
            ),
    {
        let qn = self.get_qualified_name(key);
        let cell = StaticsVar {
            kind: T::kind(),
            value: value.to_value(),
            limits: make_limits(&limits),
            settable: true,
        };
        proof {
            value.lemma_kind();
            lemma_limits_kinds::<T>(limits);
        }
        if self.statics.insert_new(qn, cell) {
            Ok(())
        } else {
            Err(StreamErrCode::AlreadyDefined)
        }
    }

    /// Register a fresh state cell.
    pub fn new_state<T: BlockElem>(&mut self, key: &str, value: T) -> (r: Result<
        (),
        StreamErrCode,
    >)
        requires
            old(self).wf(),
        ensures
            final(self).wf(),
            final(self).name_spec() == old(self).name_spec(),
            final(self).state_spec() == old(self).state_spec(),
            final(self).inputs_view() == old(self).inputs_view(),
            final(self).outputs_view() == old(self).outputs_view(),
            final(self).parameters_view() == old(self).parameters_view(),
            final(self).statics_view() == old(self).statics_view(),
            r is Ok <==> !old(self).state_view().dom().contains(
                qualified_name_spec(old(self).name_spec(), key@),
            ),
            r is Err ==> r == Err::<(), StreamErrCode>(StreamErrCode::AlreadyDefined) && final(self).state_view() == old(self).state_view(),
            r is Ok ==> final(self).state_view() =~= old(self).state_view().insert(
                qualified_name_spec(old(self).name_spec(), key@),
                (StateVar { kind: T::kind_spec(), value: value.to_value_spec() }),
            ),
    {
        let qn = self.get_qualified_name(key);
        let cell = StateVar { kind: T::kind(), value: value.to_value() };
        proof {
            value.lemma_kind();
        }
        if self.state.insert_new(qn, cell) {
            Ok(())
        } else {
            Err(StreamErrCode::AlreadyDefined)
        }
    }

    /// The typed input registered under a local name: `InvalidInput` when
    /// the name is unknown, `WrongType` when it holds another element type.
    pub fn get_input<T: BlockElem>(&self, key: &str) -> (r: Result<&Input<T>, StreamErrCode>)
        requires
            self.wf(),
        ensures
            r is Ok <==> self.inputs_view().dom().contains(
                qualified_name_spec(self.name_spec(), key@),
            ) && conn_kind(self.inputs_view()[qualified_name_spec(self.name_spec(), key@)])
                == T::kind_spec(),
            r matches Ok(inp) ==> T::input_view(
                self.inputs_view()[qualified_name_spec(self.name_spec(), key@)],
            ) == Some(*inp),
            !self.inputs_view().dom().contains(qualified_name_spec(self.name_spec(), key@)) ==> r
                == Err::<&Input<T>, StreamErrCode>(StreamErrCode::InvalidInput),
            self.inputs_view().dom().contains(qualified_name_spec(self.name_spec(), key@))
                && conn_kind(self.inputs_view()[qualified_name_spec(self.name_spec(), key@)])
                != T::kind_spec() ==> r == Err::<&Input<T>, StreamErrCode>(StreamErrCode::WrongType),
    {
        let qn = self.get_qualified_name(key);
        match self.inputs.get(&qn) {
            None => Err(StreamErrCode::InvalidInput),
            Some(cell) => {
                proof {
                    T::lemma_input_view(*cell);
                }
                match T::unwrap_input(cell) {
                    Some(inp) => Ok(inp),
                    None => Err(StreamErrCode::WrongType),
                }
            },
        }
    }

    /// The typed output registered under a local name.
    pub fn get_output<T: BlockElem>(&self, key: &str) -> (r: Result<&Output<T>, StreamErrCode>)
        requires
            self.wf(),
        ensures
            r is Ok <==> self.outputs_view().dom().contains(
                qualified_name_spec(self.name_spec(), key@),
            ) && out_kind(self.outputs_view()[qualified_name_spec(self.name_spec(), key@)])
                == T::kind_spec(),
            r matches Ok(out) ==> T::output_view(
                self.outputs_view()[qualified_name_spec(self.name_spec(), key@)],
            ) == Some(*out),
            !self.outputs_view().dom().contains(qualified_name_spec(self.name_spec(), key@)) ==> r
                == Err::<&Output<T>, StreamErrCode>(StreamErrCode::InvalidOutput),
            self.outputs_view().dom().contains(qualified_name_spec(self.name_spec(), key@))
                && out_kind(self.outputs_view()[qualified_name_spec(self.name_spec(), key@)])
                != T::kind_spec() ==> r == Err::<&Output<T>, StreamErrCode>(
                StreamErrCode::WrongType,
            ),
    {
        let qn = self.get_qualified_name(key);
        match self.outputs.get(&qn) {
            None => Err(StreamErrCode::InvalidOutput),
            Some(cell) => {
                proof {
                    T::lemma_output_view(*cell);
                }
                match T::unwrap_output(cell) {
                    Some(out) => Ok(out),
                    None => Err(StreamErrCode::WrongType),
                }
            },
        }
    }

    /// A cloneable sender for this block's input, for upstreams to push to.
    pub fn get_input_channel<T: BlockElem>(&self, key: &str) -> (r: Result<
        SyncSender<T>,
        StreamErrCode,
    >)
        requires
            self.wf(),
        ensures
            r is Ok <==> self.inputs_view().dom().contains(
                qualified_name_spec(self.name_spec(), key@),
            ) && conn_kind(self.inputs_view()[qualified_name_spec(self.name_spec(), key@)])
                == T::kind_spec(),
            !self.inputs_view().dom().contains(qualified_name_spec(self.name_spec(), key@)) ==> r
                == Err::<SyncSender<T>, StreamErrCode>(StreamErrCode::InvalidInput),
            self.inputs_view().dom().contains(qualified_name_spec(self.name_spec(), key@))
                && conn_kind(self.inputs_view()[qualified_name_spec(self.name_spec(), key@)])
                != T::kind_spec() ==> r == Err::<SyncSender<T>, StreamErrCode>(
                StreamErrCode::WrongType,
            ),
    {
        match self.get_input::<T>(key) {
            Ok(inp) => Ok(inp.sender()),
            Err(e) => Err(e),
        }
    }

    /// Blocking receive from this block's own input.
    pub fn recv_input<T: BlockElem>(&mut self, key: &str) -> (r: Result<T, StreamErrCode>)
        requires
            old(self).wf(),
        ensures
            *final(self) == *old(self),
            r is Ok <==> old(self).inputs_view().dom().contains(
                qualified_name_spec(old(self).name_spec(), key@),
            ) && conn_kind(old(self).inputs_view()[qualified_name_spec(
                old(self).name_spec(),
                key@,
            )]) == T::kind_spec(),
            !old(self).inputs_view().dom().contains(
                qualified_name_spec(old(self).name_spec(), key@),
            ) ==> r == Err::<T, StreamErrCode>(StreamErrCode::InvalidInput),
            old(self).inputs_view().dom().contains(
                qualified_name_spec(old(self).name_spec(), key@),
            ) && conn_kind(old(self).inputs_view()[qualified_name_spec(
                old(self).name_spec(),
                key@,
            )]) != T::kind_spec() ==> r == Err::<T, StreamErrCode>(StreamErrCode::WrongType),
    {
        match self.get_input::<T>(key) {
            Ok(inp) => inp.recv_borrowed(),
            Err(e) => Err(e),
        }
    }

    /// Clone a value into every sender connected to this block's output.
    pub fn send_output<T: BlockElem>(&self, key: &str, value: T) -> (r: Result<(), StreamErrCode>)
        requires
            self.wf(),
        ensures
            !self.outputs_view().dom().contains(qualified_name_spec(self.name_spec(), key@)) ==> r
                == Err::<(), StreamErrCode>(StreamErrCode::InvalidOutput),
            self.outputs_view().dom().contains(qualified_name_spec(self.name_spec(), key@))
                && out_kind(self.outputs_view()[qualified_name_spec(self.name_spec(), key@)])
                != T::kind_spec() ==> r == Err::<(), StreamErrCode>(StreamErrCode::WrongType),
            self.outputs_view().dom().contains(qualified_name_spec(self.name_spec(), key@))
                && out_kind(self.outputs_view()[qualified_name_spec(self.name_spec(), key@)])
                == T::kind_spec() ==> r is Ok || r == Err::<(), StreamErrCode>(
                StreamErrCode::SendDataError,
            ),
            self.outputs_view().dom().contains(qualified_name_spec(self.name_spec(), key@))
                && out_kind(self.outputs_view()[qualified_name_spec(self.name_spec(), key@)])
                == T::kind_spec() && out_fan_out(
                self.outputs_view()[qualified_name_spec(self.name_spec(), key@)],
            ) == 0 ==> r is Ok,
    {
        match self.get_output::<T>(key) {
            Ok(out) => {
                proof {
                    T::lemma_output_view(
                        self.outputs_view()[qualified_name_spec(self.name_spec(), key@)],
                    );
                }
                out.send(value)
            },
            Err(e) => Err(e),
        }
    }

    /// Attach a downstream sender to this block's output.
    pub fn connect<T: BlockElem>(&mut self, key: &str, sender: SyncSender<T>) -> (r: Result<
        (),
        StreamErrCode,
    >)
        requires
            old(self).wf(),
        ensures
            final(self).wf(),
            final(self).name_spec() == old(self).name_spec(),
            final(self).state_spec() == old(self).state_spec(),
            final(self).inputs_view() == old(self).inputs_view(),
            final(self).parameters_view() == old(self).parameters_view(),
            final(self).statics_view() == old(self).statics_view(),
            final(self).state_view() == old(self).state_view(),
            r is Ok <==> old(self).outputs_view().dom().contains(
                qualified_name_spec(old(self).name_spec(), key@),
            ) && out_kind(old(self).outputs_view()[qualified_name_spec(
                old(self).name_spec(),
                key@,
            )]) == T::kind_spec(),
            !old(self).outputs_view().dom().contains(
                qualified_name_spec(old(self).name_spec(), key@),
            ) ==> r == Err::<(), StreamErrCode>(StreamErrCode::InvalidOutput) && final(self).outputs_view() == old(self).outputs_view(),
            old(self).outputs_view().dom().contains(
                qualified_name_spec(old(self).name_spec(), key@),
            ) && out_kind(old(self).outputs_view()[qualified_name_spec(
                old(self).name_spec(),
                key@,
            )]) != T::kind_spec() ==> r == Err::<(), StreamErrCode>(StreamErrCode::WrongType)
                && final(self).outputs_view() =~= old(self).outputs_view(),
            r is Ok ==> final(self).outputs_view().dom() =~= old(self).outputs_view().dom()
                && out_fan_out(
                final(self).outputs_view()[qualified_name_spec(old(self).name_spec(), key@)],
            ) == out_fan_out(
                old(self).outputs_view()[qualified_name_spec(old(self).name_spec(), key@)],
            ) + 1 && out_kind(
                final(self).outputs_view()[qualified_name_spec(old(self).name_spec(), key@)],
            ) == T::kind_spec(),
            r is Ok ==> forall|k: Seq<char>|
                k != qualified_name_spec(old(self).name_spec(), key@) && old(self).outputs_view().dom().contains(k) ==> final(self).outputs_view()[k]
                    == #[trigger] old(self).outputs_view()[k],
    {
        let qn = self.get_qualified_name(key);
        match self.outputs.index_of(&qn) {
            None => Err(StreamErrCode::InvalidOutput),
            Some(i) => {
                proof {
                    self.outputs.lemma_seq_view(i as int);
                }
                let cell = self.outputs.at_mut(i);
                let ghost old_cell = *cell;
                if T::connect_cell(cell, sender) {
                    Ok(())
                } else {
                    proof {
                        assert(old(self).outputs_view().insert(qn@, old_cell) =~= old(self).outputs_view());
                    }
                    Err(StreamErrCode::WrongType)
                }
            },
        }
    }

    /// The current value of a parameter cell.
    pub fn get_parameter_value<T: BlockElem>(&self, key: &str) -> (r: Result<T, StreamErrCode>)
        requires
            self.wf(),
        ensures
            r is Ok <==> self.parameters_view().dom().contains(
                qualified_name_spec(self.name_spec(), key@),
            ) && self.parameters_view()[qualified_name_spec(self.name_spec(), key@)].kind
                == T::kind_spec(),
            r matches Ok(v) ==> v.to_value_spec() == self.parameters_view()[qualified_name_spec(
                self.name_spec(),
                key@,
            )].value,
            !self.parameters_view().dom().contains(qualified_name_spec(self.name_spec(), key@))
                ==> r == Err::<T, StreamErrCode>(StreamErrCode::InvalidParameter),
            self.parameters_view().dom().contains(qualified_name_spec(self.name_spec(), key@))
                && self.parameters_view()[qualified_name_spec(self.name_spec(), key@)].kind
                != T::kind_spec() ==> r == Err::<T, StreamErrCode>(StreamErrCode::WrongType),
    {
        let qn = self.get_qualified_name(key);
        match self.parameters.get(&qn) {
            None => Err(StreamErrCode::InvalidParameter),
            Some(cell) => {
                if T::kind() == cell.kind {
                    match T::from_value(cell.value) {
                        Some(v) => Ok(v),
                        None => Err(StreamErrCode::WrongType),
                    }
                } else {
                    Err(StreamErrCode::WrongType)
                }
            },
        }
    }

    /// Write a parameter cell, enforcing its limits.
    pub fn set_parameter_value<T: BlockElem>(&mut self, key: &str, value: T) -> (r: Result<
        (),
        StreamErrCode,
    >)
        requires
            old(self).wf(),
        ensures
            final(self).wf(),
            final(self).name_spec() == old(self).name_spec(),
            final(self).state_spec() == old(self).state_spec(),
            final(self).inputs_view() == old(self).inputs_view(),
            final(self).outputs_view() == old(self).outputs_view(),
            final(self).statics_view() == old(self).statics_view(),
            final(self).state_view() == old(self).state_view(),
            r is Ok <==> old(self).parameters_view().dom().contains(
                qualified_name_spec(old(self).name_spec(), key@),
            ) && old(self).parameters_view()[qualified_name_spec(old(self).name_spec(), key@)].kind
                == T::kind_spec() && value_within(
                old(self).parameters_view()[qualified_name_spec(
                    old(self).name_spec(),
                    key@,
                )].limits,
                value.to_value_spec(),
            ),
            !old(self).parameters_view().dom().contains(
                qualified_name_spec(old(self).name_spec(), key@),
            ) ==> r == Err::<(), StreamErrCode>(StreamErrCode::InvalidParameter) && final(self).parameters_view() == old(self).parameters_view(),
            old(self).parameters_view().dom().contains(
                qualified_name_spec(old(self).name_spec(), key@),
            ) && old(self).parameters_view()[qualified_name_spec(old(self).name_spec(), key@)].kind
                != T::kind_spec() ==> r == Err::<(), StreamErrCode>(StreamErrCode::WrongType)
                && final(self).parameters_view() =~= old(self).parameters_view(),
            old(self).parameters_view().dom().contains(
                qualified_name_spec(old(self).name_spec(), key@),
            ) && old(self).parameters_view()[qualified_name_spec(old(self).name_spec(), key@)].kind
                == T::kind_spec() && !value_within(
                old(self).parameters_view()[qualified_name_spec(
                    old(self).name_spec(),
                    key@,
                )].limits,
                value.to_value_spec(),
            ) ==> r == Err::<(), StreamErrCode>(StreamErrCode::OutOfRange) && final(self).parameters_view() =~= old(self).parameters_view(),
            r is Ok ==> final(self).parameters_view() =~= old(self).parameters_view().insert(
                qualified_name_spec(old(self).name_spec(), key@),
                (ParamVar {
                    kind: old(self).parameters_view()[qualified_name_spec(
                        old(self).name_spec(),
                        key@,
                    )].kind,
                    value: value.to_value_spec(),
                    default: old(self).parameters_view()[qualified_name_spec(
                        old(self).name_spec(),
                        key@,
                    )].default,
                    limits: old(self).parameters_view()[qualified_name_spec(
                        old(self).name_spec(),
                        key@,
                    )].limits,
                }),
            ),
    {
        let qn = self.get_qualified_name(key);
        match self.parameters.index_of(&qn) {
            None => Err(StreamErrCode::InvalidParameter),
            Some(i) => {
                proof {
                    self.parameters.lemma_seq_view(i as int);
                    value.lemma_kind();
                }
                let cell = self.parameters.at_mut(i);
                let ghost old_cell = *cell;
                if T::kind() == cell.kind {
                    let r = cell.set(value.to_value());
                    proof {
                        if r is Err {
                            assert(old(self).parameters_view().insert(qn@, old_cell) =~= old(self).parameters_view());
                        }
                    }
                    r
                } else {
                    proof {
                        assert(old(self).parameters_view().insert(qn@, old_cell) =~= old(self).parameters_view());
                    }
                    Err(StreamErrCode::WrongType)
                }
            },
        }
    }

    /// The current value of a statics cell.
    pub fn get_statics_value<T: BlockElem>(&self, key: &str) -> (r: Result<T, StreamErrCode>)
        requires
            self.wf(),
        ensures
            r is Ok <==> self.statics_view().dom().contains(
                qualified_name_spec(self.name_spec(), key@),
            ) && self.statics_view()[qualified_name_spec(self.name_spec(), key@)].kind
                == T::kind_spec(),
            r matches Ok(v) ==> v.to_value_spec() == self.statics_view()[qualified_name_spec(
                self.name_spec(),
                key@,
            )].value,
            !self.statics_view().dom().contains(qualified_name_spec(self.name_spec(), key@)) ==> r
                == Err::<T, StreamErrCode>(StreamErrCode::InvalidStatics),
            self.statics_view().dom().contains(qualified_name_spec(self.name_spec(), key@))
                && self.statics_view()[qualified_name_spec(self.name_spec(), key@)].kind
                != T::kind_spec() ==> r == Err::<T, StreamErrCode>(StreamErrCode::WrongType),
    {
        let qn = self.get_qualified_name(key);
        match self.statics.get(&qn) {
            None => Err(StreamErrCode::InvalidStatics),
            Some(cell) => {
                if T::kind() == cell.kind {
                    match T::from_value(cell.value) {
                        Some(v) => Ok(v),
                        None => Err(StreamErrCode::WrongType),
                    }
                } else {
                    Err(StreamErrCode::WrongType)
                }
            },
        }
    }

    /// Write a statics cell: only its first write succeeds, within limits.
    pub fn set_statics_value<T: BlockElem>(&mut self, key: &str, value: T) -> (r: Result<
        (),
        StreamErrCode,
    >)
        requires
            old(self).wf(),
        ensures
            final(self).wf(),
            final(self).name_spec() == old(self).name_spec(),
            final(self).state_spec() == old(self).state_spec(),
            final(self).inputs_view() == old(self).inputs_view(),
            final(self).outputs_view() == old(self).outputs_view(),
            final(self).parameters_view() == old(self).parameters_view(),
            final(self).state_view() == old(self).state_view(),
            r is Ok <==> old(self).statics_view().dom().contains(
                qualified_name_spec(old(self).name_spec(), key@),
            ) && old(self).statics_view()[qualified_name_spec(old(self).name_spec(), key@)].kind
                == T::kind_spec() && old(self).statics_view()[qualified_name_spec(
                old(self).name_spec(),
                key@,
            )].settable && value_within(
                old(self).statics_view()[qualified_name_spec(old(self).name_spec(), key@)].limits,
                value.to_value_spec(),
            ),
            !old(self).statics_view().dom().contains(
                qualified_name_spec(old(self).name_spec(), key@),
            ) ==> r == Err::<(), StreamErrCode>(StreamErrCode::InvalidStatics) && final(self).statics_view() == old(self).statics_view(),
            old(self).statics_view().dom().contains(
                qualified_name_spec(old(self).name_spec(), key@),
            ) && old(self).statics_view()[qualified_name_spec(old(self).name_spec(), key@)].kind
                != T::kind_spec() ==> r == Err::<(), StreamErrCode>(StreamErrCode::WrongType)
                && final(self).statics_view() =~= old(self).statics_view(),
            old(self).statics_view().dom().contains(
                qualified_name_spec(old(self).name_spec(), key@),
            ) && old(self).statics_view()[qualified_name_spec(old(self).name_spec(), key@)].kind
                == T::kind_spec() && !old(self).statics_view()[qualified_name_spec(
                old(self).name_spec(),
                key@,
            )].settable ==> r == Err::<(), StreamErrCode>(StreamErrCode::InvalidOperation) && final(self).statics_view() =~= old(self).statics_view(),
            r is Ok ==> final(self).statics_view() =~= old(self).statics_view().insert(
                qualified_name_spec(old(self).name_spec(), key@),
                (StaticsVar {
                    kind: old(self).statics_view()[qualified_name_spec(
                        old(self).name_spec(),
                        key@,
                    )].kind,
                    value: value.to_value_spec(),
                    limits: old(self).statics_view()[qualified_name_spec(
                        old(self).name_spec(),
                        key@,
                    )].limits,
                    settable: false,
                }),
            ),
    {
        let qn = self.get_qualified_name(key);
        match self.statics.index_of(&qn) {
            None => Err(StreamErrCode::InvalidStatics),
            Some(i) => {
                proof {
                    self.statics.lemma_seq_view(i as int);
                    value.lemma_kind();
                }
                let cell = self.statics.at_mut(i);
                let ghost old_cell = *cell;
                if T::kind() == cell.kind {
                    let r = cell.set(value.to_value());
                    proof {
                        if r is Err {
                            assert(old(self).statics_view().insert(qn@, old_cell) =~= old(self).statics_view());
                        }
                    }
                    r
                } else {
                    proof {
                        assert(old(self).statics_view().insert(qn@, old_cell) =~= old(self).statics_view());
                    }
                    Err(StreamErrCode::WrongType)
                }
            },
        }
    }

    /// The current value of a state cell.
    pub fn get_state_value<T: BlockElem>(&self, key: &str) -> (r: Result<T, StreamErrCode>)
        requires
            self.wf(),
        ensures
            r is Ok <==> self.state_view().dom().contains(
                qualified_name_spec(self.name_spec(), key@),
            ) && self.state_view()[qualified_name_spec(self.name_spec(), key@)].kind
                == T::kind_spec(),
            r matches Ok(v) ==> v.to_value_spec() == self.state_view()[qualified_name_spec(
                self.name_spec(),
                key@,
            )].value,
            !self.state_view().dom().contains(qualified_name_spec(self.name_spec(), key@)) ==> r
                == Err::<T, StreamErrCode>(StreamErrCode::InvalidParameter),
            self.state_view().dom().contains(qualified_name_spec(self.name_spec(), key@))
                && self.state_view()[qualified_name_spec(self.name_spec(), key@)].kind
                != T::kind_spec() ==> r == Err::<T, StreamErrCode>(StreamErrCode::WrongType),
    {
        let qn = self.get_qualified_name(key);
        match self.state.get(&qn) {
            None => Err(StreamErrCode::InvalidParameter),
            Some(cell) => {
                if T::kind() == cell.kind {
                    match T::from_value(cell.value) {
                        Some(v) => Ok(v),
                        None => Err(StreamErrCode::WrongType),
                    }
                } else {
                    Err(StreamErrCode::WrongType)
                }
            },
        }
    }

    /// Write a state cell; state writes always succeed.
    pub fn set_state_value<T: BlockElem>(&mut self, key: &str, value: T) -> (r: Result<
        (),
        StreamErrCode,
    >)
        requires
            old(self).wf(),
        ensures
            final(self).wf(),
            final(self).name_spec() == old(self).name_spec(),
            final(self).state_spec() == old(self).state_spec(),
            final(self).inputs_view() == old(self).inputs_view(),
            final(self).outputs_view() == old(self).outputs_view(),
            final(self).parameters_view() == old(self).parameters_view(),
            final(self).statics_view() == old(self).statics_view(),
            r is Ok <==> old(self).state_view().dom().contains(
                qualified_name_spec(old(self).name_spec(), key@),
            ) && old(self).state_view()[qualified_name_spec(old(self).name_spec(), key@)].kind
                == T::kind_spec(),
            !old(self).state_view().dom().contains(
                qualified_name_spec(old(self).name_spec(), key@),
            ) ==> r == Err::<(), StreamErrCode>(StreamErrCode::InvalidParameter) && final(self).state_view() == old(self).state_view(),
            old(self).state_view().dom().contains(
                qualified_name_spec(old(self).name_spec(), key@),
            ) && old(self).state_view()[qualified_name_spec(old(self).name_spec(), key@)].kind
                != T::kind_spec() ==> r == Err::<(), StreamErrCode>(StreamErrCode::WrongType)
                && final(self).state_view() =~= old(self).state_view(),
            r is Ok ==> final(self).state_view() =~= old(self).state_view().insert(
                qualified_name_spec(old(self).name_spec(), key@),
                (StateVar {
                    kind: old(self).state_view()[qualified_name_spec(
                        old(self).name_spec(),
                        key@,
                    )].kind,
                    value: value.to_value_spec(),
                }),
            ),
    {
        let qn = self.get_qualified_name(key);
        match self.state.index_of(&qn) {
            None => Err(StreamErrCode::InvalidParameter),
            Some(i) => {
                proof {
                    self.state.lemma_seq_view(i as int);
                    value.lemma_kind();
                }
                let cell = self.state.at_mut(i);
                let ghost old_cell = *cell;
                if T::kind() == cell.kind {
                    cell.value = value.to_value();
                    Ok(())
                } else {
                    proof {
                        assert(old(self).state_view().insert(qn@, old_cell) =~= old(self).state_view());
                    }
                    Err(StreamErrCode::WrongType)
                }
            },
        }
    }

    pub fn get_input_list(&self) -> (r: Vec<String>)
        ensures
            r@.len() == self.inputs_seq().len(),
            forall|i: int| 0 <= i < r@.len() ==> r@[i]@ == self.inputs_seq()[i].0,
    {
        self.inputs.keys()
    }

    pub fn get_output_list(&self) -> (r: Vec<String>)
        ensures
            r@.len() == self.outputs_seq().len(),
            forall|i: int| 0 <= i < r@.len() ==> r@[i]@ == self.outputs_seq()[i].0,
    {
        self.outputs.keys()
    }

    pub fn get_parameter_list(&self) -> (r: Vec<String>)
        ensures
            r@.len() == self.parameters_seq().len(),
            forall|i: int| 0 <= i < r@.len() ==> r@[i]@ == self.parameters_seq()[i].0,
    {
        self.parameters.keys()
    }

    pub fn get_statics_list(&self) -> (r: Vec<String>)
        ensures
            r@.len() == self.statics_seq().len(),
            forall|i: int| 0 <= i < r@.len() ==> r@[i]@ == self.statics_seq()[i].0,
    {
        self.statics.keys()
    }

    /// Whether every statics cell has been written, which `init` requires.
    pub fn is_initialized(&self) -> (r: bool)
        requires
            self.wf(),
        ensures
            r == self.all_statics_frozen(),
    {
        let n = self.statics.len();
        let mut i: usize = 0;
        while i < n
            invariant
                i <= n,
                n == self.statics_seq().len(),
                self.wf(),
                forall|j: int| 0 <= j < i ==> !(#[trigger] self.statics_seq()[j]).1.settable,
            decreases n - i,
        {
            if self.statics.at(i).settable {
                proof {
                    self.statics.lemma_seq_view(i as int);
                }
                return false;
            }
            i = i + 1;
        }
        proof {
            assert forall|k: Seq<char>| self.statics_view().dom().contains(k) implies !(
            #[trigger] self.statics_view()[k]).settable by {
                self.statics.lemma_view_to_seq(k);
            }
            assert(all_frozen(self.statics_view()));
        }
        true
    }

    /// Enter `Initial`: refused while `Running`, and refused with
    /// `InvalidStatics` while some statics cell is still settable.
    pub fn init(&mut self) -> (r: Result<(), StreamErrCode>)
        requires
            old(self).wf(),
        ensures
            final(self).wf(),
            Self::same_config(*old(self), *final(self)),
            r is Ok <==> old(self).state_spec() != StreamingState::Running && old(self).all_statics_frozen(),
            old(self).state_spec() == StreamingState::Running ==> r == Err::<(), StreamErrCode>(
                StreamErrCode::InvalidStateTransition,
            ) && final(self).state_spec() == old(self).state_spec(),
            old(self).state_spec() != StreamingState::Running && !old(self).all_statics_frozen()
                ==> r == Err::<(), StreamErrCode>(StreamErrCode::InvalidStatics) && final(self).state_spec() == old(self).state_spec(),
            r is Ok ==> final(self).state_spec() == StreamingState::Initial,
    {
        if self.check_state(StreamingState::Running) {
            return Err(StreamErrCode::InvalidStateTransition);
        }
        if !self.is_initialized() {
            return Err(StreamErrCode::InvalidStatics);
        }
        self.set_state(StreamingState::Initial);
        Ok(())
    }

    /// Enter `Running`: refused from `Stopped`, and refused from `Null`
    /// because `init` is mandatory.
    pub fn run(&mut self) -> (r: Result<(), StreamErrCode>)
        requires
            old(self).wf(),
        ensures
            final(self).wf(),
            Self::same_config(*old(self), *final(self)),
            r is Ok <==> old(self).state_spec() != StreamingState::Stopped && old(self).state_spec()
                != StreamingState::Null,
            r is Err ==> r == Err::<(), StreamErrCode>(StreamErrCode::InvalidStateTransition)
                && final(self).state_spec() == old(self).state_spec(),
            r is Ok ==> final(self).state_spec() == StreamingState::Running,
    {
        if self.check_state(StreamingState::Stopped) || self.check_state(StreamingState::Null) {
            return Err(StreamErrCode::InvalidStateTransition);
        }
        self.set_state(StreamingState::Running);
        Ok(())
    }

    /// Enter `Stopped`; legal from every state.
    pub fn stop(&mut self) -> (r: Result<(), StreamErrCode>)
        requires
            old(self).wf(),
        ensures
            final(self).wf(),
            Self::same_config(*old(self), *final(self)),
            r == Ok::<(), StreamErrCode>(()),
            final(self).state_spec() == StreamingState::Stopped,
    {
        self.set_state(StreamingState::Stopped);
        Ok(())
    }
}

} // verus!
