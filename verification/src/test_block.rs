//! A small worked example of a processing block: it receives an integer,
//! adds a write-once offset, optionally flips the sign, and sends the
//! result downstream.

use vstd::prelude::*;
use crate::block::StreamBlock;
use crate::block::qualified_name_spec;
use crate::cells::ParamVar;
use crate::cells::StaticsVar;
use crate::cells::conn_kind;
use crate::cells::out_fan_out;
use crate::cells::out_kind;
use crate::streaming_data::StreamErrCode;
use crate::streaming_data::StreamingState;
use crate::stream_processor::StreamProcessor;
use crate::values::Value;
use crate::values::ValueKind;

verus! {

/// An example block: one `i32` input, one `i32` output, a `bool` parameter
/// `"change_sign"` and a write-once `i32` statics `"sum_value"`.
pub struct TestBlock {
    pub base: StreamBlock,
}

impl TestBlock {
    /// The substrate holds the four cells this block registers.
    pub open spec fn shape(&self) -> bool {
        &&& self.base.inputs_view().dom().contains(
            qualified_name_spec(self.base.name_spec(), "test_input"@),
        )
        &&& conn_kind(
            self.base.inputs_view()[qualified_name_spec(self.base.name_spec(), "test_input"@)],
        ) == ValueKind::I32
        &&& self.base.outputs_view().dom().contains(
            qualified_name_spec(self.base.name_spec(), "test_output"@),
        )
        &&& out_kind(
            self.base.outputs_view()[qualified_name_spec(self.base.name_spec(), "test_output"@)],
        ) == ValueKind::I32
        &&& self.base.parameters_view().dom().contains(
            qualified_name_spec(self.base.name_spec(), "change_sign"@),
        )
        &&& self.base.parameters_view()[qualified_name_spec(
            self.base.name_spec(),
            "change_sign"@,
        )].kind == ValueKind::Bool
        &&& self.base.statics_view().dom().contains(
            qualified_name_spec(self.base.name_spec(), "sum_value"@),
        )
        &&& self.base.statics_view()[qualified_name_spec(
            self.base.name_spec(),
            "sum_value"@,
        )].kind == ValueKind::I32
    }

    /// What one processed item becomes: the input plus the offset in
    /// wrapping arithmetic, negated when the sign flag is set.
    pub open spec fn output_of(value: i32, sum_value: i32, change_sign: bool) -> i32 {
        if change_sign {
            vstd::wrapping::i32_specs::wrapping_sub(
                0i32,
                vstd::wrapping::i32_specs::wrapping_add(value, sum_value),
            )
        } else {
            vstd::wrapping::i32_specs::wrapping_add(value, sum_value)
        }
    }

    /// The block's compute step, separated out with its exact contract.
    pub fn compute_output(value: i32, sum_value: i32, change_sign: bool) -> (r: i32)
        ensures
            r == Self::output_of(value, sum_value, change_sign),
    {
        let total = value.wrapping_add(sum_value);
        if change_sign {
            0i32.wrapping_sub(total)
        } else {
            total
        }
    }

    /// A fresh block holds exactly the four registered cells: the typed
    /// connectors, the sign parameter at `false`, and the offset statics
    /// at `0`, still settable — so `init` is refused until it is written.
    pub fn new(name: &str) -> (r: Self)
        ensures
            r.inv(),
            r.state_spec() == StreamingState::Null,
            r.base.name_spec() == name@,
            r.base.inputs_view().dom() =~= Set::<Seq<char>>::empty().insert(
                qualified_name_spec(name@, "test_input"@),
            ),
            r.base.outputs_view().dom() =~= Set::<Seq<char>>::empty().insert(
                qualified_name_spec(name@, "test_output"@),
            ),
            out_fan_out(r.base.outputs_view()[qualified_name_spec(name@, "test_output"@)]) == 0,
            r.base.parameters_view() =~= Map::<Seq<char>, ParamVar>::empty().insert(
                qualified_name_spec(name@, "change_sign"@),
                (ParamVar {
                    kind: ValueKind::Bool,
                    value: Value::Bool(false),
                    default: Value::Bool(false),
                    limits: Option::None,
                }),
            ),
            r.base.statics_view() =~= Map::<Seq<char>, StaticsVar>::empty().insert(
                qualified_name_spec(name@, "sum_value"@),
                (StaticsVar {
                    kind: ValueKind::I32,
                    value: Value::I32(0),
                    limits: Option::None,
                    settable: true,
                }),
            ),
            r.base.state_view() =~= Map::<Seq<char>, crate::cells::StateVar>::empty(),
            !r.base.all_statics_frozen(),
    {
        let mut base = StreamBlock::new(name);
        let _ = base.new_input::<i32>("test_input");
        let _ = base.new_output::<i32>("test_output");
        let _ = base.new_parameter::<bool>("change_sign", false, None);
        let _ = base.new_statics::<i32>("sum_value", 0, None);
        proof {
            let qn_sum = qualified_name_spec(name@, "sum_value"@);
            assert(base.statics_view().dom().contains(qn_sum));
            assert(base.statics_view()[qn_sum].settable);
        }
        TestBlock { base }
    }
}

impl StreamProcessor for TestBlock {
    open spec fn state_spec(&self) -> StreamingState {
        self.base.state_spec()
    }

    open spec fn inv(&self) -> bool {
        self.base.wf() && self.shape()
    }

    fn check_state(&self, state: StreamingState) -> bool {
        self.base.check_state(state)
    }

    /// Beyond the block contract: this block's `init` is nothing but the
    /// substrate's readiness check, so success is exactly the check.
    fn init(&mut self) -> (r: Result<(), StreamErrCode>)
        ensures
            r is Ok <==> old(self).base.state_spec() != StreamingState::Running && old(
                self,
            ).base.all_statics_frozen(),
            old(self).base.state_spec() != StreamingState::Running && !old(
                self,
            ).base.all_statics_frozen() ==> r == Err::<(), StreamErrCode>(
                StreamErrCode::InvalidStatics,
            ),
            final(self).base.statics_view() == old(self).base.statics_view(),
    {
        self.base.init()
    }

    /// Beyond the block contract: this block never overrides the
    /// transition, so success is exactly the substrate's rule.
    fn run(&mut self) -> (r: Result<(), StreamErrCode>)
        ensures
            r is Ok <==> old(self).base.state_spec() != StreamingState::Stopped && old(
                self,
            ).base.state_spec() != StreamingState::Null,
    {
        self.base.run()
    }

    /// Receive one value, compute `output_of` over it with the stored
    /// offset and sign flag, and send the result. The block itself is
    /// untouched; only a dropped downstream can fail the send.
    fn process(&mut self) -> (r: Result<(), StreamErrCode>)
        ensures
            *final(self) == *old(self),
            r is Ok || r == Err::<(), StreamErrCode>(StreamErrCode::SendDataError),
    {
        let change_sign = match self.base.get_parameter_value::<bool>("change_sign") {
            Ok(v) => v,
            Err(e) => {
                return Err(e);
            },
        };
        let sum_value = match self.base.get_statics_value::<i32>("sum_value") {
            Ok(v) => v,
            Err(e) => {
                return Err(e);
            },
        };
        let value = match self.base.recv_input::<i32>("test_input") {
            Ok(v) => v,
            Err(e) => {
                return Err(e);
            },
        };
        let out_value = Self::compute_output(value, sum_value, change_sign);
        self.base.send_output::<i32>("test_output", out_value)
    }

    fn stop(&mut self) -> Result<(), StreamErrCode> {
        self.base.stop()
    }

    fn execute_command(&mut self, command: &str, args: &Vec<String>) -> Result<
        String,
        StreamErrCode,
    > {
        Err(StreamErrCode::InvalidOperation)
    }
}

} // verus!
