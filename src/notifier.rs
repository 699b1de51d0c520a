use vstd::prelude::*;

use crate::error::ApprovalError;

verus! {

/// An outbound call to the approved account's contract, to be made by the runtime after
/// an approval that carried a message. Its outcome goes to the callback, whose result
/// becomes the result of the approval call.
#[derive(Debug, Clone, PartialEq, Eq)]
pub struct PendingCall {
    /// The account notified: the one just approved.
    pub receiver_id: String,
    /// The owner of the token, who granted the approval.
    pub owner_id: String,
    pub token_id: String,
    /// The id that the approval received.
    pub approval_id: u64,
    /// The message, handed on unchanged.
    pub msg: String,
    /// The budget given to the receiver's call.
    pub gas: u64,
}

/// How the receiver's call settled, as the runtime reports it to the callback.
#[derive(Debug, Clone, PartialEq, Eq)]
pub enum ReceiverOutcome {
    /// The receiver returned this value, serialized.
    Returned(String),
    /// The receiver returned no value.
    ReturnedNothing,
    /// The receiver reverted or ran out of its budget.
    Failed,
}

/// The value that stands for "no value".
pub open spec fn null_value() -> Seq<char> {
    "null"@
}

/// What the callback yields for `outcome` once the caller is known to be the contract:
/// the receiver's value verbatim, `null` for no value, and a non-fatal error for a failure.
pub open spec fn settled(outcome: ReceiverOutcome) -> Result<Seq<char>, ApprovalError> {
    match outcome {
        ReceiverOutcome::Returned(v) => Ok(v@),
        ReceiverOutcome::ReturnedNothing => Ok(null_value()),
        ReceiverOutcome::Failed => Err(ApprovalError::ReceiverCallFailed),
    }
}

/// The view of a callback's result: the characters of a value, or the error.
pub open spec fn result_view(r: Result<String, ApprovalError>) -> Result<Seq<char>, ApprovalError> {
    match r {
        Ok(s) => Ok(s@),
        Err(e) => Err(e),
    }
}

/// The callback that runs after the receiver's call: only `self_id` may invoke it. It
/// forwards the receiver's result and touches no approval state.
pub fn resolve(self_id: &String, caller: &str, outcome: ReceiverOutcome) -> (r: Result<String, ApprovalError>)
    ensures
        caller@ != self_id@ ==> r == Err::<String, ApprovalError>(ApprovalError::UnauthorizedCallback),
        caller@ == self_id@ ==> result_view(r) == settled(outcome),
{
    let caller = caller.to_owned();
    if caller != *self_id {
        return Err(ApprovalError::UnauthorizedCallback);
    }
    match outcome {
        ReceiverOutcome::Returned(v) => Ok(v),
        ReceiverOutcome::ReturnedNothing => Ok("null".to_owned()),
        ReceiverOutcome::Failed => Err(ApprovalError::ReceiverCallFailed),
    }
}

} // verus!
