use vstd::prelude::*;

verus! {

/// Every way an operation of the governance engine can be rejected.
///
/// A rejection always happens before any state change: callers see either a
/// successful result with the full effect applied, or one of these values
/// with the state untouched.
#[derive(Clone, Copy, Debug, PartialEq, Eq, Structural)]
pub enum GovError {
    /// A zero amount was sent along with a stake request.
    InsufficientFundsSent,
    /// The sender has no stake account.
    NothingStaked,
    /// A withdrawal would dip into shares that back still-active votes.
    WithdrawTooMany,
    /// A withdrawal request for zero tokens.
    ZeroWithdrawal,
    /// The poll id is zero or beyond the number of created polls.
    PollNotFound,
    /// The poll is not in the `InProgress` state (or its voting window closed).
    PollNotInProgress,
    /// The poll's voting window has not elapsed yet.
    VotingPeriodNotExpired,
    /// A vote record for this poll and voter already exists.
    AlreadyVoted,
    /// The claimed voting weight exceeds the sender's staked balance.
    InsufficientStaked,
    /// The poll is not in the `Passed` state.
    PollNotPassed,
    /// The timelock after the voting window has not elapsed yet.
    TimelockNotExpired,
    /// The poll carries no execute batch item.
    NoExecuteData,
    /// The poll does carry an execute batch, so it cannot lapse unused.
    PollHasExecuteData,
    /// The window in which a passed, message-less poll may be expired has not
    /// opened yet.
    ExpireWindowNotReached,
    /// The snapshot window before the poll's end has not opened yet.
    SnapshotWindowNotOpen,
    /// The poll's staked amount was already snapshotted.
    SnapshotAlreadyOccurred,
    /// The deposit is below the configured minimum; carries that minimum.
    InsufficientProposalDeposit(u128),
    /// The title is shorter or longer than the allowed bounds.
    InvalidTitle,
    /// The description is shorter or longer than the allowed bounds.
    InvalidDescription,
    /// The link is shorter or longer than the allowed bounds.
    InvalidLink,
    /// A quorum fraction above one.
    InvalidQuorum,
    /// A threshold fraction above one.
    InvalidThreshold,
    /// The caller may not perform this operation.
    Unauthorized,
    /// A checked arithmetic operation overflowed.
    Overflow,
    /// A ratio was taken against a zero denominator.
    DivideByZero,
    /// The failure callback arrived with nothing in the pending register.
    NoPendingPoll,
}

} // verus!
