use catnip::state::{on_close_event, CloseAction, CloseEvent, State};

#[test]
fn graceful_close_both_sides() {
    // Bob closes first; Alice reads EOF and closes.
    let (bob, a) = on_close_event(State::Established, CloseEvent::Close);
    assert_eq!((bob, a), (State::FinWait1, CloseAction::SendFin));
    let (alice, a) = on_close_event(State::Established, CloseEvent::FinReceived);
    assert_eq!((alice, a), (State::CloseWait, CloseAction::SendAck));
    let (bob, _) = on_close_event(bob, CloseEvent::AckOfFin);
    assert_eq!(bob, State::FinWait2);
    let (alice, a) = on_close_event(alice, CloseEvent::Close);
    assert_eq!((alice, a), (State::LastAck, CloseAction::SendFin));
    let (bob, a) = on_close_event(bob, CloseEvent::FinReceived);
    assert_eq!((bob, a), (State::TimeWait, CloseAction::SendAckAndStartTimeWait));
    let (alice, _) = on_close_event(alice, CloseEvent::AckOfFin);
    assert_eq!(alice, State::Closed);
    let (bob, a) = on_close_event(bob, CloseEvent::FinReceived);
    assert_eq!((bob, a), (State::TimeWait, CloseAction::SendAckAndStartTimeWait));
    let (bob, _) = on_close_event(bob, CloseEvent::TimeWaitExpired);
    assert_eq!(bob, State::Closed);
}

#[test]
fn simultaneous_close() {
    let (s, _) = on_close_event(State::Established, CloseEvent::Close);
    let (s, a) = on_close_event(s, CloseEvent::FinReceived);
    assert_eq!((s, a), (State::Closing, CloseAction::SendAck));
    let (s, _) = on_close_event(s, CloseEvent::AckOfFin);
    assert_eq!(s, State::TimeWait);
    let (s, _) = on_close_event(State::FinWait1, CloseEvent::FinAndAckOfFin);
    assert_eq!(s, State::TimeWait);
}

#[test]
fn reset_closes_from_any_state() {
    for s in [State::SynSent, State::Established, State::FinWait2, State::TimeWait, State::LastAck] {
        assert_eq!(on_close_event(s, CloseEvent::RstReceived), (State::Closed, CloseAction::SignalReset));
    }
    assert_eq!(on_close_event(State::Closed, CloseEvent::Close), (State::Closed, CloseAction::Nothing));
    assert_eq!(on_close_event(State::Established, CloseEvent::TimeWaitExpired), (State::Established, CloseAction::Nothing));
}
