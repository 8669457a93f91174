//! Lifecycle states and the error taxonomy shared by every component.

use vstd::prelude::*;

verus! {

/// Lifecycle state of a stream block: `Null` at construction, `Initial`
/// after a successful `init`, then `Running` and finally `Stopped`.
#[derive(Clone, Copy, Debug, PartialEq, Eq, Structural)]
pub enum StreamingState {
    Null,
    Initial,
    Running,
    Stopped,
}

/// Error kinds returned by the engine's operations.
#[derive(Clone, Copy, Debug, PartialEq, Eq, Structural)]
pub enum StreamErrCode {
    GenericError,
    AlreadyDefined,
    InvalidStateTransition,
    InvalidParameter,
    InvalidInput,
    InvalidOutput,
    InvalidStatics,
    InvalidProcessorBlock,
    InvalidOperation,
    SendDataError,
    ReceiveDataError,
    UnsetStatics,
    OutOfRange,
    WrongType,
    PathError,
    FileNotFound,
    CreateError,
    ReadError,
    WriteError,
    TaskError,
}

/// An error kind together with a free-form message.
pub struct StreamingError {
    pub code: StreamErrCode,
    pub message: String,
}

impl StreamingError {
    pub fn new(code: StreamErrCode, message: &str) -> (r: Self)
        ensures
            r.code == code,
            r.message@ == message@,
    {
        StreamingError { code, message: message.to_owned() }
    }
}

} // verus!
