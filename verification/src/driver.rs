//! The decisions of the streaming loop: what to do after each block.

use vstd::prelude::*;

verus! {

/// Where the streaming loop stands.
#[derive(Clone, Copy, Debug, PartialEq, Eq, Structural)]
pub enum DriverState {
    /// Blocks are being produced and sent.
    Streaming,
    /// A stop was asked for; nothing more is sent.
    Stopped,
    /// The sink refused a block; nothing more is sent.
    Failed,
}

/// What happened to the block that was handed to the sink.
#[derive(Clone, Copy, Debug, PartialEq, Eq, Structural)]
pub enum SinkEvent {
    /// The sink took the block.
    Accepted,
    /// The sink took the block, and a stop has been asked for.
    StopRequested,
    /// The sink refused the block.
    WriteFailed,
}

/// What the loop does next.
#[derive(Clone, Copy, Debug, PartialEq, Eq, Structural)]
pub enum Action {
    /// Generate, encode and send the next block.
    SendNextBlock,
    /// Leave the loop.
    Halt,
}

/// The state that follows `state` on `event`: streaming goes on while the
/// sink accepts, a refused block is final and is never retried, and a state
/// that is not streaming stays as it is.
pub open spec fn next_state(state: DriverState, event: SinkEvent) -> DriverState {
    match state {
        DriverState::Streaming => match event {
            SinkEvent::Accepted => DriverState::Streaming,
            SinkEvent::StopRequested => DriverState::Stopped,
            SinkEvent::WriteFailed => DriverState::Failed,
        },
        DriverState::Stopped => DriverState::Stopped,
        DriverState::Failed => DriverState::Failed,
    }
}

/// The action that goes with a state: a block is sent exactly while
/// streaming.
pub open spec fn action_in(state: DriverState) -> Action {
    match state {
        DriverState::Streaming => Action::SendNextBlock,
        _ => Action::Halt,
    }
}

impl DriverState {
    /// The state in which the loop starts.
    pub fn start() -> (state: DriverState)
        ensures
            state == DriverState::Streaming,
    {
        DriverState::Streaming
    }

    /// Takes one event and says in which state the loop goes on and what it
    /// does there.
    pub fn step(self, event: SinkEvent) -> (next: (DriverState, Action))
        ensures
            next.0 == next_state(self, event),
            next.1 == action_in(next.0),
    {
        match self {
            DriverState::Streaming => match event {
                SinkEvent::Accepted => (DriverState::Streaming, Action::SendNextBlock),
                SinkEvent::StopRequested => (DriverState::Stopped, Action::Halt),
                SinkEvent::WriteFailed => (DriverState::Failed, Action::Halt),
            },
            DriverState::Stopped => (DriverState::Stopped, Action::Halt),
            DriverState::Failed => (DriverState::Failed, Action::Halt),
        }
    }
}

/// Once the loop has left streaming, no event brings it back.
pub proof fn lemma_halt_is_final(state: DriverState, event: SinkEvent)
    requires
        state != DriverState::Streaming,
    ensures
        next_state(state, event) == state,
        action_in(next_state(state, event)) == Action::Halt,
{
}

} // verus!
