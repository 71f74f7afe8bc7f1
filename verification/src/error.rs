//! The reasons for which a savings-group operation is refused.
use vstd::prelude::*;

verus! {

/// Why an operation on a savings group was refused. A refused operation
/// leaves the group exactly as it was.
#[derive(Clone, Copy, PartialEq, Eq, Structural, Debug)]
pub enum GroupError {
    /// The group has already been initialized.
    AlreadyInitialized,
    /// The group has not been initialized yet.
    NotInitialized,
    /// The fixed contribution amount is zero or negative.
    ContributionNotPositive,
    /// The fixed contribution amount exceeds the platform maximum.
    ContributionTooLarge,
    /// The cycle length in ledgers does not fit in 32 bits.
    CycleLengthOverflow,
    /// The contract is paused for emergency.
    ContractPaused,
    /// The contract is not paused (emergency withdrawal needs a pause).
    NotPaused,
    /// A payout is in progress: the call is a reentrant one.
    ReentrancyDetected,
    /// The account is not a member of the group.
    NotAMember,
    /// The payout recipient is not a member of the group.
    RecipientNotAMember,
    /// The member's payout turn has already passed.
    PayoutTurnPassed,
    /// A rotational contribution must be exactly the fixed amount.
    WrongContributionAmount,
    /// A contributed amount must be positive.
    AmountNotPositive,
    /// The member has already contributed in the current cycle.
    AlreadyContributed,
    /// A member's contribution total would overflow.
    ContributionOverflow,
    /// The member list is full.
    TooManyMembers,
    /// The cycle's member count would overflow.
    MemberCountOverflow,
    /// Goal-based groups have no rotational payouts.
    GoalBasedPayout,
    /// Every member in the rotation has already been paid.
    AllPaidOut,
    /// The named recipient is not the next member in the rotation.
    RecipientMismatch,
    /// No cycle is active: nobody has contributed since the last reset.
    NoActiveCycle,
    /// The payout pool size overflows.
    PoolOverflow,
    /// The contract holds less than the full payout pool.
    InsufficientPoolFunds,
    /// The contract holds less than the requested payout.
    InsufficientFunds,
    /// There is no next payout recipient.
    NoNextRecipient,
    /// Rotational groups do not allow withdrawals.
    RotationalWithdrawal,
    /// A withdrawal amount must be positive.
    WithdrawalNotPositive,
    /// The member's savings are below the requested amount.
    InsufficientSavings,
    /// The group's savings target has not been reached yet.
    TargetNotReached,
    /// The member has nothing to reclaim in the current cycle.
    NoContributionThisCycle,
    /// The cycle counter would overflow.
    CycleIdOverflow,
}

} // verus!
