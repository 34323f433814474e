use vstd::prelude::*;

verus! {

/// The kinds of error that the stack reports.
#[derive(Debug, Clone, Copy, PartialEq, Eq, Structural)]
pub enum FailKind {
    BadMessage,
    NotSupported,
    Timeout,
    ConnectionRefused,
    ConnectionReset,
    NotConnected,
    AlreadyConnected,
    WouldBlock,
    AddressInUse,
    BadDescriptor,
}

/// An error of the stack, identified by its kind.
#[derive(Debug, Clone, Copy, PartialEq, Eq, Structural)]
pub struct Fail {
    pub kind: FailKind,
}

impl Fail {
    pub fn new(kind: FailKind) -> (r: Fail)
        ensures
            r.kind == kind,
    {
        Fail { kind }
    }
}

} // verus!
