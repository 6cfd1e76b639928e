//! Session-level state machine of the replication stream: resolution of
//! the start position, the live tail, and the terminal states.

use vstd::prelude::*;

verus! {

/// The phase a stream session is in. `Closed` (graceful shutdown) and
/// `Failed` (unrecoverable transport or protocol error) are terminal.
#[derive(Clone, Copy, Debug, PartialEq, Eq, Structural)]
pub enum SessionPhase {
    Uninitialized,
    PositionResolved,
    Streaming,
    Closed,
    Failed,
}

/// What happened to the session, as the surrounding collaborators
/// report it: the start position was resolved, the transport opened the
/// stream, one event was handled, the transport failed, or the consumer
/// asked to shut down.
#[derive(Clone, Copy, Debug, PartialEq, Eq, Structural)]
pub enum SessionInput {
    PositionResolved,
    StreamOpened,
    EventHandled,
    TransportFailed,
    CloseRequested,
}

/// The successor phase: position resolution, then streaming, then one
/// self-loop per handled event. A transport failure fails the session
/// from any live phase, a close request ends it, a terminal phase
/// absorbs every input, and an input out of order is a protocol fault.
pub open spec fn next_phase_spec(phase: SessionPhase, input: SessionInput) -> SessionPhase {
    if phase is Closed || phase is Failed {
        phase
    } else {
        match input {
            SessionInput::PositionResolved => if phase is Uninitialized {
                SessionPhase::PositionResolved
            } else {
                SessionPhase::Failed
            },
            SessionInput::StreamOpened => if phase is PositionResolved {
                SessionPhase::Streaming
            } else {
                SessionPhase::Failed
            },
            SessionInput::EventHandled => if phase is Streaming {
                SessionPhase::Streaming
            } else {
                SessionPhase::Failed
            },
            SessionInput::TransportFailed => SessionPhase::Failed,
            SessionInput::CloseRequested => SessionPhase::Closed,
        }
    }
}

/// Whether no further input can change the phase.
pub open spec fn is_terminal(phase: SessionPhase) -> bool {
    phase is Closed || phase is Failed
}

/// Advances the session by one reported input.
pub fn next_phase(phase: SessionPhase, input: SessionInput) -> (r: SessionPhase)
    ensures
        r == next_phase_spec(phase, input),
{
    if matches!(phase, SessionPhase::Closed) || matches!(phase, SessionPhase::Failed) {
        phase
    } else {
        match input {
            SessionInput::PositionResolved => {
                if matches!(phase, SessionPhase::Uninitialized) {
                    SessionPhase::PositionResolved
                } else {
                    SessionPhase::Failed
                }
            },
            SessionInput::StreamOpened => {
                if matches!(phase, SessionPhase::PositionResolved) {
                    SessionPhase::Streaming
                } else {
                    SessionPhase::Failed
                }
            },
            SessionInput::EventHandled => {
                if matches!(phase, SessionPhase::Streaming) {
                    SessionPhase::Streaming
                } else {
                    SessionPhase::Failed
                }
            },
            SessionInput::TransportFailed => SessionPhase::Failed,
            SessionInput::CloseRequested => SessionPhase::Closed,
        }
    }
}

/// A terminal phase stays terminal under every input.
pub proof fn lemma_terminal_is_absorbing(phase: SessionPhase, input: SessionInput)
    requires
        is_terminal(phase),
    ensures
        next_phase_spec(phase, input) == phase,
{
}

} // verus!
