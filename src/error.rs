use vstd::prelude::*;

verus! {

/// Every way an operation of the pool can fail. A failed operation has no
/// effect on the ledgers.
#[derive(Debug, Clone, Copy, PartialEq, Eq, Structural)]
pub enum CookieError {
    /// A batch size out of range, or another violated precondition.
    InvalidArgument,
    /// An arithmetic step left the representable range.
    NumericalOverflow,
    /// The token mint does not belong to the pool.
    InvalidMintAccount,
    /// A stake exceeds the participant's token balance.
    InsufficientBalance,
    /// An unstake exceeds the participant's recorded stake.
    InsufficientStake,
    /// Reserved for an authorization layer: cross-program call refused.
    CPINotAllowed,
    /// Reserved for an authorization layer: unexpected program invoked.
    UnauthorizedProgramFound,
    /// A second batch by the same participant at one sequence point.
    RateLimit,
}

} // verus!
