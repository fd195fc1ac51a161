//! Notifications of successful operations.
//!
//! Every successful operation produces one of these records naming the
//! tournament, the affected identities, the amounts and a timestamp; the
//! host environment publishes it to external observers. The operations'
//! contracts pin every field.

use vstd::prelude::*;

use crate::account_id::AccountId;

verus! {

/// A tournament was created and opened for registration.
#[derive(Clone, Debug)]
pub struct TournamentCreated {
    /// The tournament's identity.
    pub tournament: AccountId,
    /// Entry fee each player must pay.
    pub buy_in_amount: u64,
    /// Registration cap.
    pub max_players: u8,
    /// Players per match.
    pub match_size: u8,
    /// Basis points reserved for tournament prizes.
    pub tournament_prize_percentage: u16,
    /// Basis points reserved for match prizes.
    pub match_prize_percentage: u16,
    /// Basis points reserved for the operator.
    pub operator_fee_percentage: u16,
    /// Authority of the new tournament.
    pub authority: AccountId,
    /// When the operation was performed.
    pub timestamp: i64,
}

/// A player registered and paid the entry fee into the vault.
#[derive(Clone, Debug)]
pub struct PlayerBoughtIn {
    /// The tournament's identity.
    pub tournament: AccountId,
    /// The registered player.
    pub player: AccountId,
    /// Entry fee the player paid.
    pub buy_in_amount: u64,
    /// Player count after this registration.
    pub current_players: u8,
    /// When the operation was performed.
    pub timestamp: i64,
}

/// Registration closed and play began.
#[derive(Clone, Debug)]
pub struct TournamentStarted {
    /// The tournament's identity.
    pub tournament: AccountId,
    /// Player count at start.
    pub current_players: u8,
    /// Ranked tournament payout percentages.
    pub payout_percentages: Vec<u16>,
    /// Ranked per-match payout percentages.
    pub match_payout_percentages: Vec<u16>,
    /// When the operation was performed.
    pub timestamp: i64,
}

/// Tournament prizes were distributed and the tournament finalized.
#[derive(Clone, Debug)]
pub struct TournamentFinalized {
    /// The tournament's identity.
    pub tournament: AccountId,
    /// All named winners, flattened in resolution order.
    pub winners: Vec<AccountId>,
    /// Total amount handed out.
    pub total_prize_pool: u128,
    /// When the operation was performed.
    pub timestamp: i64,
}

/// One match's prizes were distributed.
#[derive(Clone, Debug)]
pub struct MatchRewardsDistributed {
    /// The tournament's identity.
    pub tournament: AccountId,
    /// Identifier of the match paid.
    pub match_id: u32,
    /// All named winners, flattened in resolution order.
    pub winners: Vec<AccountId>,
    /// Total amount handed out.
    pub total_match_pool: u128,
    /// When the operation was performed.
    pub timestamp: i64,
}

/// The one-shot operator fee left the vault.
#[derive(Clone, Debug)]
pub struct OperatorFeeWithdrawn {
    /// The tournament's identity.
    pub tournament: AccountId,
    /// Destination of the fee.
    pub recipient: AccountId,
    /// Amount withdrawn.
    pub amount: u128,
    /// When the operation was performed.
    pub timestamp: i64,
}

/// The tournament was aborted during registration.
#[derive(Clone, Debug)]
pub struct TournamentCancelled {
    /// The tournament's identity.
    pub tournament: AccountId,
    /// When the operation was performed.
    pub timestamp: i64,
}

/// One participant's entry fee was returned.
#[derive(Clone, Debug)]
pub struct ParticipantRefunded {
    /// The tournament's identity.
    pub tournament: AccountId,
    /// The refunded participant.
    pub participant: AccountId,
    /// Amount returned: exactly the entry fee.
    pub amount: u64,
    /// When the operation was performed.
    pub timestamp: i64,
}

} // verus!
