use vstd::prelude::*;

verus! {

/// What the delayed-ACK task does next.
#[derive(Debug, Clone, Copy, PartialEq, Eq, Structural)]
pub enum AckDecision {
    /// The deadline has come: send an ACK now.
    SendAck,
    /// Sleep until this time, or until the deadline changes.
    WaitUntil(u64),
    /// No ACK is owed: sleep until the deadline changes.
    WaitForChange,
}

/// One turn of the delayed-ACK task, given the current ACK deadline and
/// the time.
pub fn acknowledger_step(ack_deadline: Option<u64>, now: u64) -> (r: AckDecision)
    ensures
        r == match ack_deadline {
            None => AckDecision::WaitForChange,
            Some(t) => if now >= t {
                AckDecision::SendAck
            } else {
                AckDecision::WaitUntil(t)
            },
        },
{
    match ack_deadline {
        None => AckDecision::WaitForChange,
        Some(t) => if now >= t {
            AckDecision::SendAck
        } else {
            AckDecision::WaitUntil(t)
        },
    }
}

/// The ACK deadline after data arrived at `now`: at once where an ACK is
/// owed immediately (two full-sized segments unacknowledged, or data out of
/// order); else the deadline already set; else `delay` from now.
pub fn ack_deadline_after_receive(current: Option<u64>, now: u64, delay: u64, immediate: bool) -> (r:
    Option<u64>)
    ensures
        r == if immediate {
            Some(now)
        } else {
            match current {
                Some(t) => Some(t),
                None => Some(if now + delay > u64::MAX {
                    u64::MAX
                } else {
                    (now + delay) as u64
                }),
            }
        },
{
    if immediate {
        Some(now)
    } else {
        match current {
            Some(t) => Some(t),
            None => Some(now.saturating_add(delay)),
        }
    }
}

} // verus!
