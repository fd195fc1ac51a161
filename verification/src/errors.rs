//! Error taxonomy of the tournament engine.
//!
//! Every operation reports failures synchronously through these codes; no
//! operation partially commits, so a failed call leaves the state exactly
//! as it was.

use vstd::prelude::*;

verus! {

/// Reasons an operation can be refused.
#[derive(Clone, Copy, PartialEq, Eq, Structural, Debug)]
pub enum ErrorCode {
    /// A named winner is the all-zero placeholder identity.
    InvalidWinner,
    /// The operation is not legal in the tournament's current phase.
    InvalidPhase,
    /// The tournament cannot start without at least one player.
    NotEnoughPlayers,
    /// Registration is already at the maximum player count.
    TournamentFull,
    /// The player is already registered.
    AlreadyRegistered,
    /// A named winner is not a registered participant.
    WinnerNotParticipant,
    /// The three configured splits do not sum to exactly 10000 basis
    /// points, or a tournament payout sequence does not.
    InvalidPercentages,
    /// The match payout sequence does not sum to exactly 10000 basis points.
    InvalidMatchPayoutPercentages,
    /// The tournament payout sequence is empty or longer than allowed.
    InvalidPayoutCount,
    /// The winner list is empty, a group is empty, or a group consumes no
    /// positions.
    InvalidWinnerCount,
    /// The same winner was named twice.
    DuplicateWinner,
    /// A named winner has no transfer destination among the provided
    /// accounts.
    MissingWinnerAccount,
    /// The one-shot operator fee was already withdrawn.
    OperatorFeeAlreadyWithdrawn,
    /// The operation needs the tournament to be finalized first.
    TournamentNotFinalized,
    /// The caller is not the authority recognized for this operation.
    UnauthorizedAuthority,
    /// The match identifier is already in the paid ledger.
    MatchAlreadyPaid,
    /// The entry fee must be positive.
    InvalidBuyInAmount,
    /// The maximum player count is outside 2..=100.
    InvalidMaxPlayers,
    /// The match size is outside 2..=max players.
    InvalidMatchSize,
    /// The tournament prize percentage must be positive.
    InvalidTournamentPrizePercentage,
    /// The match prize percentage is malformed.
    InvalidMatchPrizePercentage,
    /// The operator fee percentage is outside 1..=1500 basis points.
    InvalidOperatorFeePercentage,
    /// The player counter would overflow its width.
    PlayerCountOverflow,
    /// More payout positions than registered players.
    TooManyPayoutPositions,
    /// A tournament payout entry is outside 1..=10000 basis points.
    InvalidPayoutPercentage,
    /// The number of matches computed from the player count is zero.
    InvalidMatchCount,
    /// A computed share rounds to zero where a positive payout is owed.
    NoMatchRewards,
    /// The match payout sequence is empty or longer than allowed.
    InvalidMatchPayoutCount,
    /// A match payout entry is outside 1..=10000 basis points.
    InvalidMatchPayoutPercentage,
    /// More winners were supplied than the operation accepts.
    TooManyWinners,
    /// The tournament prize percentage is below the 5000 basis-point floor.
    TournamentPrizeTooLow,
    /// The operator fee percentage is above the 1500 basis-point cap.
    OperatorFeeTooHigh,
    /// A pool computation overflowed or failed its inverse check.
    CalculationOverflow,
    /// Cancellation is only possible before the tournament starts.
    TournamentAlreadyStarted,
    /// Refunds are only possible once the tournament is cancelled.
    TournamentNotCancelled,
    /// The refund target never registered.
    ParticipantNotFound,
    /// The participant is already in the refunded ledger.
    ParticipantAlreadyRefunded,
}

} // verus!
