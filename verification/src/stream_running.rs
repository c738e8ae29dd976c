use vstd::prelude::*;

verus! {

/// The running-stream screen's own state; it is created only by the
/// application when a session starts.
#[derive(Debug, Clone, Copy)]
pub struct StreamRunning {
    _no_public_constructor: (),
}

/// What the operator did on the running-stream screen.
#[derive(Clone, Debug, Copy, PartialEq, Eq, Structural)]
pub enum StreamRunningMessage {
    ClearErrors,
}

/// What the surrounding application should do about a running-stream
/// message.
#[derive(Debug, Clone, Copy, PartialEq, Eq, Structural)]
pub enum Update {
    Idle,
    ClearErrors,
}

impl StreamRunning {
    pub fn new() -> StreamRunning {
        StreamRunning { _no_public_constructor: () }
    }

    /// Turns one message into the action the application should take.
    pub fn update(&mut self, message: StreamRunningMessage) -> (r: Update)
        ensures
            match message {
                StreamRunningMessage::ClearErrors => r == Update::ClearErrors,
            },
    {
        match message {
            StreamRunningMessage::ClearErrors => Update::ClearErrors,
        }
    }
}

} // verus!
