use vstd::prelude::*;

verus! {

/// The states of a TCP connection.
#[derive(Debug, Clone, Copy, PartialEq, Eq, Structural)]
pub enum State {
    Listen,
    SynSent,
    SynReceived,
    Established,
    FinWait1,
    FinWait2,
    CloseWait,
    Closing,
    LastAck,
    TimeWait,
    Closed,
}

/// What happens to a connection on its way to CLOSED.
#[derive(Debug, Clone, Copy, PartialEq, Eq, Structural)]
pub enum CloseEvent {
    /// The application closes its side.
    Close,
    /// A FIN arrives that does not acknowledge ours.
    FinReceived,
    /// An ACK of our FIN arrives.
    AckOfFin,
    /// A FIN arrives that acknowledges ours.
    FinAndAckOfFin,
    /// A RST arrives.
    RstReceived,
    /// The TIME-WAIT timer (two maximum segment lifetimes) expires.
    TimeWaitExpired,
}

/// What the connection sends or arms on a transition.
#[derive(Debug, Clone, Copy, PartialEq, Eq, Structural)]
pub enum CloseAction {
    Nothing,
    SendFin,
    SendAck,
    /// Acknowledge the FIN and arm the TIME-WAIT timer anew.
    SendAckAndStartTimeWait,
    /// Drop queued data and report a reset to reader and writer.
    SignalReset,
}

/// The teardown of RFC 793, figure 6: the next state and the action for
/// `event` in state `s`. Events that do not apply leave the state as it
/// is; a RST closes the connection from any state but CLOSED and LISTEN.
pub open spec fn close_transition(s: State, event: CloseEvent) -> (State, CloseAction) {
    match (s, event) {
        (State::Closed, _) => (State::Closed, CloseAction::Nothing),
        (State::Listen, CloseEvent::RstReceived) => (State::Listen, CloseAction::Nothing),
        (_, CloseEvent::RstReceived) => (State::Closed, CloseAction::SignalReset),
        (State::Established, CloseEvent::Close) => (State::FinWait1, CloseAction::SendFin),
        (State::SynReceived, CloseEvent::Close) => (State::FinWait1, CloseAction::SendFin),
        (State::Listen, CloseEvent::Close) => (State::Closed, CloseAction::Nothing),
        (State::SynSent, CloseEvent::Close) => (State::Closed, CloseAction::Nothing),
        (State::Established, CloseEvent::FinReceived) => (State::CloseWait, CloseAction::SendAck),
        (State::FinWait1, CloseEvent::AckOfFin) => (State::FinWait2, CloseAction::Nothing),
        (State::FinWait1, CloseEvent::FinReceived) => (State::Closing, CloseAction::SendAck),
        (State::FinWait1, CloseEvent::FinAndAckOfFin) => (
            State::TimeWait,
            CloseAction::SendAckAndStartTimeWait,
        ),
        (State::FinWait2, CloseEvent::FinReceived) => (
            State::TimeWait,
            CloseAction::SendAckAndStartTimeWait,
        ),
        (State::FinWait2, CloseEvent::FinAndAckOfFin) => (
            State::TimeWait,
            CloseAction::SendAckAndStartTimeWait,
        ),
        (State::CloseWait, CloseEvent::Close) => (State::LastAck, CloseAction::SendFin),
        (State::Closing, CloseEvent::AckOfFin) => (State::TimeWait, CloseAction::SendAckAndStartTimeWait),
        (State::LastAck, CloseEvent::AckOfFin) => (State::Closed, CloseAction::Nothing),
        (State::TimeWait, CloseEvent::FinReceived) => (
            State::TimeWait,
            CloseAction::SendAckAndStartTimeWait,
        ),
        (State::TimeWait, CloseEvent::FinAndAckOfFin) => (
            State::TimeWait,
            CloseAction::SendAckAndStartTimeWait,
        ),
        (State::TimeWait, CloseEvent::TimeWaitExpired) => (State::Closed, CloseAction::Nothing),
        (_, _) => (s, CloseAction::Nothing),
    }
}

/// Takes a connection through one step of its teardown.
pub fn on_close_event(s: State, event: CloseEvent) -> (r: (State, CloseAction))
    ensures
        r == close_transition(s, event),
{
    match (s, event) {
        (State::Closed, _) => (State::Closed, CloseAction::Nothing),
        (State::Listen, CloseEvent::RstReceived) => (State::Listen, CloseAction::Nothing),
        (_, CloseEvent::RstReceived) => (State::Closed, CloseAction::SignalReset),
        (State::Established, CloseEvent::Close) => (State::FinWait1, CloseAction::SendFin),
        (State::SynReceived, CloseEvent::Close) => (State::FinWait1, CloseAction::SendFin),
        (State::Listen, CloseEvent::Close) => (State::Closed, CloseAction::Nothing),
        (State::SynSent, CloseEvent::Close) => (State::Closed, CloseAction::Nothing),
        (State::Established, CloseEvent::FinReceived) => (State::CloseWait, CloseAction::SendAck),
        (State::FinWait1, CloseEvent::AckOfFin) => (State::FinWait2, CloseAction::Nothing),
        (State::FinWait1, CloseEvent::FinReceived) => (State::Closing, CloseAction::SendAck),
        (State::FinWait1, CloseEvent::FinAndAckOfFin) => (
            State::TimeWait,
            CloseAction::SendAckAndStartTimeWait,
        ),
        (State::FinWait2, CloseEvent::FinReceived) => (
            State::TimeWait,
            CloseAction::SendAckAndStartTimeWait,
        ),
        (State::FinWait2, CloseEvent::FinAndAckOfFin) => (
            State::TimeWait,
            CloseAction::SendAckAndStartTimeWait,
        ),
        (State::CloseWait, CloseEvent::Close) => (State::LastAck, CloseAction::SendFin),
        (State::Closing, CloseEvent::AckOfFin) => (State::TimeWait, CloseAction::SendAckAndStartTimeWait),
        (State::LastAck, CloseEvent::AckOfFin) => (State::Closed, CloseAction::Nothing),
        (State::TimeWait, CloseEvent::FinReceived) => (
            State::TimeWait,
            CloseAction::SendAckAndStartTimeWait,
        ),
        (State::TimeWait, CloseEvent::FinAndAckOfFin) => (
            State::TimeWait,
            CloseAction::SendAckAndStartTimeWait,
        ),
        (State::TimeWait, CloseEvent::TimeWaitExpired) => (State::Closed, CloseAction::Nothing),
        (_, _) => (s, CloseAction::Nothing),
    }
}

/// The states run through from `s` by `events`, in order.
pub open spec fn run_close(s: State, events: Seq<CloseEvent>) -> State
    decreases events.len(),
{
    if events.len() == 0 {
        s
    } else {
        run_close(close_transition(s, events[0]).0, events.drop_first())
    }
}

/// Once CLOSED, a connection stays CLOSED whatever happens to it.
pub proof fn lemma_closed_is_final(events: Seq<CloseEvent>)
    ensures
        run_close(State::Closed, events) == State::Closed,
    decreases events.len(),
{
    if events.len() > 0 {
        lemma_closed_is_final(events.drop_first());
    }
}

} // verus!
