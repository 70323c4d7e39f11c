use vstd::prelude::*;

verus! {

/// Error taxonomy of the governance core.
///
/// Every validation failure of an operation surfaces one of these kinds and
/// leaves all state unchanged: an operation either commits all of its
/// mutations or none of them.
#[derive(Clone, Copy, Debug, PartialEq, Eq, Structural)]
pub enum DaoError {
    /// Checked addition would exceed the integer range.
    Overflow,
    /// Checked subtraction would drop below zero.
    Underflow,
    /// Proposal name exceeds the fixed record layout bound.
    InvalidName,
    /// Proposal description reference exceeds the fixed record layout bound.
    InvalidGist,
    /// The treasury selector names no known treasury pool.
    InvalidTreasury,
    /// The operation is illegal in the proposal's current lifecycle state.
    InvalidProposalStatus,
    /// The pre-voting period has not elapsed yet.
    InvalidRequiredTime,
    /// The clock is past the proposal's expiry.
    Expired,
    /// The chosen index is not below the proposal's choice count.
    InvalidChoice,
    /// The choice count is below the registry minimum or below the fixed
    /// for/against/abstain layout.
    InvalidChoicesAmount,
    /// The staked amount is below the registry minimum.
    InvalidStakeAmount,
    /// The threshold is below the registry minimum.
    InvalidThreshold,
    /// The quorum is below the registry minimum.
    InvalidQuorum,
    /// The expiry is above the registry maximum.
    InvalidExpiry,
    /// The proposal id does not equal the registry's next counter value.
    InvalidProposalSeed,
    /// The multisig roster is empty or larger than its bound.
    InvalidKeysLen,
    /// The minimum-signers threshold is zero or above the roster size.
    InvalidSigners,
    /// A vote was cast with a zero amount.
    InvalidVoteAmount,
    /// The treasury share percentages do not sum to exactly one hundred.
    InvalidShares,
    /// A supplied account or target reference does not match the declared one.
    InvalidInstructionData,
    /// A derived signing capability could not be reconstructed.
    InvalidSignerOrSeed,
    /// The participant's free stake does not cover the request.
    InsufficientStake,
    /// The participant already holds a vote record for this proposal.
    DoubleVote,
    /// No vote record exists for this (participant, proposal) pair.
    VoteNotFound,
    /// No proposal with this id exists.
    ProposalNotFound,
    /// No stake ledger entry exists for this participant.
    StakeNotFound,
    /// The participant already has a stake ledger entry.
    AlreadyStaked,
    /// The stake ledger entry still holds a balance or open votes.
    StakeInUse,
}

} // verus!
