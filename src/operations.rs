use vstd::prelude::*;
use crate::fail::Fail;
use crate::ipv4::Ipv4Endpoint;

verus! {

/// Identifies a socket of the stack.
#[derive(Debug, Clone, Copy, PartialEq, Eq, Hash, Structural)]
pub struct QDesc {
    pub value: usize,
}

/// The result that completes an operation on a socket.
#[derive(Debug)]
pub enum OperationResult {
    Connect,
    Accept(QDesc),
    Push,
    Pop(Option<Ipv4Endpoint>, Vec<u8>),
    Failed(Fail),
}

pub open spec fn operation_name(r: &OperationResult) -> Seq<char> {
    match r {
        OperationResult::Connect => "Connect"@,
        OperationResult::Accept(_) => "Accept"@,
        OperationResult::Push => "Push"@,
        OperationResult::Pop(_, _) => "Pop"@,
        OperationResult::Failed(_) => "Failed"@,
    }
}

impl OperationResult {
    /// The name of the operation that this result completes, or `Failed`.
    pub fn name(&self) -> (r: &'static str)
        ensures
            r@ == operation_name(self),
    {
        match self {
            OperationResult::Connect => "Connect",
            OperationResult::Accept(_) => "Accept",
            OperationResult::Push => "Push",
            OperationResult::Pop(_, _) => "Pop",
            OperationResult::Failed(_) => "Failed",
        }
    }
}

} // verus!
