//! The processor contract every block implements: a lifecycle state
//! machine (`Null` → `Initial` → `Running` → `Stopped`) over one unit of
//! work per `process` call.

use vstd::prelude::*;
use crate::streaming_data::StreamErrCode;
use crate::streaming_data::StreamingState;

verus! {

/// A processing block with the engine's lifecycle contract.
///
/// `init` is mandatory before `run`; a block can never leave `Running`
/// except through `stop`, and `stop` is legal from every state. A failing
/// `init` either leaves the state alone or parks the block in `Stopped`.
pub trait StreamProcessor: Sized {
    /// The block's current lifecycle state.
    spec fn state_spec(&self) -> StreamingState;

    /// The block's internal well-formedness.
    spec fn inv(&self) -> bool;

    fn check_state(&self, state: StreamingState) -> (r: bool)
        requires
            self.inv(),
        ensures
            r == (self.state_spec() == state),
    ;

    /// Enter `Initial`; refused while `Running`.
    fn init(&mut self) -> (r: Result<(), StreamErrCode>)
        requires
            old(self).inv(),
        ensures
            final(self).inv(),
            old(self).state_spec() == StreamingState::Running ==> r == Err::<(), StreamErrCode>(
                StreamErrCode::InvalidStateTransition,
            ) && final(self).state_spec() == old(self).state_spec(),
            r is Ok ==> final(self).state_spec() == StreamingState::Initial,
            r is Err ==> final(self).state_spec() == old(self).state_spec() || final(self).state_spec() == StreamingState::Stopped,
    ;

    /// Enter `Running`; refused from `Stopped`, and from `Null` because
    /// `init` is mandatory.
    fn run(&mut self) -> (r: Result<(), StreamErrCode>)
        requires
            old(self).inv(),
        ensures
            final(self).inv(),
            old(self).state_spec() == StreamingState::Stopped || old(self).state_spec()
                == StreamingState::Null ==> r == Err::<(), StreamErrCode>(
                StreamErrCode::InvalidStateTransition,
            ) && final(self).state_spec() == old(self).state_spec(),
            r is Ok ==> final(self).state_spec() == StreamingState::Running,
            r is Err ==> final(self).state_spec() == old(self).state_spec(),
    ;

    /// One unit of work; drivers call it in a loop and never through a
    /// lifecycle edge, so the state is preserved.
    fn process(&mut self) -> (r: Result<(), StreamErrCode>)
        requires
            old(self).inv(),
        ensures
            final(self).inv(),
            final(self).state_spec() == old(self).state_spec(),
    ;

    /// Enter `Stopped`, whatever else the block does on shutdown.
    fn stop(&mut self) -> (r: Result<(), StreamErrCode>)
        requires
            old(self).inv(),
        ensures
            final(self).inv(),
            final(self).state_spec() == StreamingState::Stopped,
    ;

    /// Out-of-band command dispatch; blocks without commands refuse it.
    fn execute_command(&mut self, command: &str, args: &Vec<String>) -> (r: Result<
        String,
        StreamErrCode,
    >)
        requires
            old(self).inv(),
        ensures
            final(self).inv(),
            final(self).state_spec() == old(self).state_spec(),
    ;
}

} // verus!
