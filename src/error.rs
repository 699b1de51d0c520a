use vstd::prelude::*;

verus! {

/// Why an approval operation was refused or came back negative.
#[derive(Debug, Clone, Copy, PartialEq, Eq, Structural)]
pub enum ApprovalError {
    /// The caller is not the token's current owner.
    NotOwner,
    /// No token has this id.
    TokenNotFound,
    /// The attached deposit does not cover the storage that a new approval takes.
    InsufficientDeposit,
    /// The token already has as many approved accounts as allowed.
    TooManyApprovals,
    /// The account holds no approval for the token.
    ApprovalDoesNotExist,
    /// The budget cannot cover the approval, the receiver's call and the callback.
    InsufficientGas,
    /// The receiver's call reverted or ran out of its budget; the approval stays.
    ReceiverCallFailed,
    /// The callback was invoked by an account other than the contract itself.
    UnauthorizedCallback,
}

/// The name under which callers see `e`.
pub open spec fn error_name(e: ApprovalError) -> Seq<char> {
    match e {
        ApprovalError::NotOwner => "NotOwner"@,
        ApprovalError::TokenNotFound => "TokenNotFound"@,
        ApprovalError::InsufficientDeposit => "InsufficientDeposit"@,
        ApprovalError::TooManyApprovals => "TooManyApprovals"@,
        ApprovalError::ApprovalDoesNotExist => "ApprovalDoesNotExist"@,
        ApprovalError::InsufficientGas => "InsufficientGas"@,
        ApprovalError::ReceiverCallFailed => "ReceiverCallFailed"@,
        ApprovalError::UnauthorizedCallback => "UnauthorizedCallback"@,
    }
}

impl ApprovalError {
    /// The name of the error, as callers see it.
    pub fn name(&self) -> (r: &'static str)
        ensures
            r@ == error_name(*self),
    {
        match self {
            ApprovalError::NotOwner => "NotOwner",
            ApprovalError::TokenNotFound => "TokenNotFound",
            ApprovalError::InsufficientDeposit => "InsufficientDeposit",
            ApprovalError::TooManyApprovals => "TooManyApprovals",
            ApprovalError::ApprovalDoesNotExist => "ApprovalDoesNotExist",
            ApprovalError::InsufficientGas => "InsufficientGas",
            ApprovalError::ReceiverCallFailed => "ReceiverCallFailed",
            ApprovalError::UnauthorizedCallback => "UnauthorizedCallback",
        }
    }
}

} // verus!
