//! The eight operations of the tournament engine.
//!
//! Each operation validates the caller, the phase and its inputs in the
//! order the engine checks them, then mutates the state and reports the
//! transfers the host must perform and the notification it must emit.
//! Validation strictly precedes mutation: a failed call returns its error
//! and leaves the state exactly as it was. Each operation's contract is
//! an exact account of that order, phrased through a `..._check` spec
//! function returning either permission to proceed or the error the
//! operation reports.

use vstd::prelude::*;

use crate::account_id::AccountId;
use crate::account_id::contains_account;
use crate::arith::calculate_percentage_amount;
use crate::arith::calculate_total_buy_ins;
use crate::arith::lemma_pct_amount_le_pool;
use crate::arith::lemma_pct_amount_nonneg;
use crate::arith::pct_amount;
use crate::arith::total_buy_ins;
use crate::distribution::Payout;
use crate::distribution::Transfer;
use crate::distribution::distribute_prizes;
use crate::distribution::payouts_of;
use crate::distribution::resolve_winners;
use crate::distribution::sum_pct;
use crate::distribution::sum_payouts;
use crate::distribution::window_pct;
use crate::errors::ErrorCode;
use crate::events::MatchRewardsDistributed;
use crate::events::OperatorFeeWithdrawn;
use crate::events::ParticipantRefunded;
use crate::events::PlayerBoughtIn;
use crate::events::TournamentCancelled;
use crate::events::TournamentCreated;
use crate::events::TournamentFinalized;
use crate::events::TournamentStarted;
use crate::state::TournamentPhase;
use crate::state::TournamentState;
use crate::state::all_distinct;
use crate::state::is_match_paid;
use crate::state::is_participant;
use crate::winner::Winner;
use crate::winner::consumed_total;
use crate::winner::flatten;
use crate::winner::flatten_winners;
use crate::winner::winner_players;

verus! {

/// The configuration and authority fields two states share when an
/// operation only touches the lifecycle data.
pub open spec fn same_config(a: TournamentState, b: TournamentState) -> bool {
    &&& a.buy_in_amount == b.buy_in_amount
    &&& a.max_players == b.max_players
    &&& a.match_size == b.match_size
    &&& a.tournament_prize_percentage == b.tournament_prize_percentage
    &&& a.match_prize_percentage == b.match_prize_percentage
    &&& a.operator_fee_percentage == b.operator_fee_percentage
    &&& a.authority == b.authority
}

/// The checks creation performs, in order: the payer must be on the
/// allow-list of approved creators, and the configuration must satisfy
/// every constraint of the data model.
pub open spec fn create_check(
    approved_creators: Seq<AccountId>,
    payer: AccountId,
    buy_in_amount: u64,
    max_players: u8,
    match_size: u8,
    tournament_prize_percentage: u16,
    match_prize_percentage: u16,
    operator_fee_percentage: u16,
) -> Result<(), ErrorCode> {
    if !approved_creators.contains(payer) {
        Err(ErrorCode::UnauthorizedAuthority)
    } else if !(buy_in_amount > 0) {
        Err(ErrorCode::InvalidBuyInAmount)
    } else if !(max_players >= 2 && max_players <= 100) {
        Err(ErrorCode::InvalidMaxPlayers)
    } else if !(match_size >= 2 && match_size <= max_players) {
        Err(ErrorCode::InvalidMatchSize)
    } else if !(tournament_prize_percentage > 0) {
        Err(ErrorCode::InvalidTournamentPrizePercentage)
    } else if !(operator_fee_percentage > 0 && operator_fee_percentage <= 1500) {
        Err(ErrorCode::InvalidOperatorFeePercentage)
    } else if tournament_prize_percentage as int + match_prize_percentage as int
        + operator_fee_percentage as int != 10000 {
        Err(ErrorCode::InvalidPercentages)
    } else if !(tournament_prize_percentage >= 5000) {
        Err(ErrorCode::TournamentPrizeTooLow)
    } else if !(operator_fee_percentage <= 1500) {
        Err(ErrorCode::OperatorFeeTooHigh)
    } else {
        Ok(())
    }
}

impl TournamentState {
    /// Creates a tournament in the registration phase. The payer must be
    /// one of the approved creators and becomes the tournament's
    /// authority; the configuration is validated as `create_check` says,
    /// and every field of the new state and of the notification is
    /// pinned.
    pub fn initialize_tournament(
        approved_creators: &Vec<AccountId>,
        payer: AccountId,
        buy_in_amount: u64,
        max_players: u8,
        match_size: u8,
        tournament_prize_percentage: u16,
        match_prize_percentage: u16,
        operator_fee_percentage: u16,
        tournament: AccountId,
        now: i64,
    ) -> (r: Result<(TournamentState, TournamentCreated), ErrorCode>)
        ensures
            match r {
                Ok((state, event)) => {
                    &&& create_check(
                        approved_creators@,
                        payer,
                        buy_in_amount,
                        max_players,
                        match_size,
                        tournament_prize_percentage,
                        match_prize_percentage,
                        operator_fee_percentage,
                    ) == Ok::<(), ErrorCode>(())
                    &&& state.well_formed()
                    &&& state.buy_in_amount == buy_in_amount
                    &&& state.max_players == max_players
                    &&& state.match_size == match_size
                    &&& state.current_players == 0
                    &&& state.phase == TournamentPhase::Registration
                    &&& state.participants@ == Seq::<AccountId>::empty()
                    &&& state.paid_match_ids@ == Seq::<u32>::empty()
                    &&& state.tournament_prize_percentage == tournament_prize_percentage
                    &&& state.match_prize_percentage == match_prize_percentage
                    &&& state.operator_fee_percentage == operator_fee_percentage
                    &&& state.tournament_payouts@ == Seq::<u16>::empty()
                    &&& state.match_payout_percentages@ == Seq::<u16>::empty()
                    &&& !state.operator_fee_withdrawn
                    &&& state.authority == payer
                    &&& state.refunded_participants@ == Seq::<AccountId>::empty()
                    &&& event == (TournamentCreated {
                        tournament,
                        buy_in_amount,
                        max_players,
                        match_size,
                        tournament_prize_percentage,
                        match_prize_percentage,
                        operator_fee_percentage,
                        authority: payer,
                        timestamp: now,
                    })
                },
                Err(e) => create_check(
                    approved_creators@,
                    payer,
                    buy_in_amount,
                    max_players,
                    match_size,
                    tournament_prize_percentage,
                    match_prize_percentage,
                    operator_fee_percentage,
                ) == Err::<(), ErrorCode>(e),
            },
    {
        if !contains_account(approved_creators, payer) {
            return Err(ErrorCode::UnauthorizedAuthority);
        }
        if !(buy_in_amount > 0) {
            return Err(ErrorCode::InvalidBuyInAmount);
        }
        if !(max_players >= 2 && max_players <= 100) {
            return Err(ErrorCode::InvalidMaxPlayers);
        }
        if !(match_size >= 2 && match_size <= max_players) {
            return Err(ErrorCode::InvalidMatchSize);
        }
        if !(tournament_prize_percentage > 0) {
            return Err(ErrorCode::InvalidTournamentPrizePercentage);
        }
        if !(operator_fee_percentage > 0 && operator_fee_percentage <= 1500) {
            return Err(ErrorCode::InvalidOperatorFeePercentage);
        }
        if tournament_prize_percentage as u32 + match_prize_percentage as u32
            + operator_fee_percentage as u32 != 10000 {
            return Err(ErrorCode::InvalidPercentages);
        }
        if !(tournament_prize_percentage >= 5000) {
            return Err(ErrorCode::TournamentPrizeTooLow);
        }
        if !(operator_fee_percentage <= 1500) {
            return Err(ErrorCode::OperatorFeeTooHigh);
        }
        let state = TournamentState {
            buy_in_amount,
            max_players,
            current_players: 0,
            match_size,
            phase: TournamentPhase::Registration,
            participants: Vec::new(),
            paid_match_ids: Vec::new(),
            tournament_prize_percentage,
            match_prize_percentage,
            operator_fee_percentage,
            tournament_payouts: Vec::new(),
            match_payout_percentages: Vec::new(),
            operator_fee_withdrawn: false,
            authority: payer,
            refunded_participants: Vec::new(),
        };
        let event = TournamentCreated {
            tournament,
            buy_in_amount,
            max_players,
            match_size,
            tournament_prize_percentage,
            match_prize_percentage,
            operator_fee_percentage,
            authority: payer,
            timestamp: now,
        };
        Ok((state, event))
    }
}

/// The checks registration performs, in order: recognized authority,
/// registration phase, room under the cap and under the counter's width,
/// and a player not yet registered.
pub open spec fn buy_in_check(
    state: TournamentState,
    player: AccountId,
    authority: AccountId,
) -> Result<(), ErrorCode> {
    if state.authority != authority {
        Err(ErrorCode::UnauthorizedAuthority)
    } else if state.phase != TournamentPhase::Registration {
        Err(ErrorCode::InvalidPhase)
    } else if !(state.current_players < state.max_players) {
        Err(ErrorCode::TournamentFull)
    } else if !(state.current_players < 255) {
        Err(ErrorCode::PlayerCountOverflow)
    } else if state.participants@.contains(player) {
        Err(ErrorCode::AlreadyRegistered)
    } else {
        Ok(())
    }
}

impl TournamentState {
    /// Registers a player. On success the host has already moved the
    /// entry fee from the player into the vault; the player is appended
    /// to the participant list and the count grows by one. Registration
    /// can never push the count past the cap.
    pub fn buy_in(
        &mut self,
        player: AccountId,
        authority: AccountId,
        tournament: AccountId,
        now: i64,
    ) -> (r: Result<PlayerBoughtIn, ErrorCode>)
        requires
            old(self).well_formed(),
        ensures
            final(self).well_formed(),
            match r {
                Ok(event) => {
                    &&& buy_in_check(*old(self), player, authority) == Ok::<(), ErrorCode>(())
                    &&& same_config(*old(self), *final(self))
                    &&& final(self).phase == TournamentPhase::Registration
                    &&& final(self).participants@ == old(self).participants@.push(player)
                    &&& final(self).current_players == old(self).current_players + 1
                    &&& final(self).current_players <= final(self).max_players
                    &&& final(self).tournament_payouts@ == old(self).tournament_payouts@
                    &&& final(self).match_payout_percentages@ == old(
                        self,
                    ).match_payout_percentages@
                    &&& final(self).paid_match_ids@ == old(self).paid_match_ids@
                    &&& final(self).refunded_participants@ == old(self).refunded_participants@
                    &&& final(self).operator_fee_withdrawn == old(self).operator_fee_withdrawn
                    &&& event == (PlayerBoughtIn {
                        tournament,
                        player,
                        buy_in_amount: old(self).buy_in_amount,
                        current_players: (old(self).current_players + 1) as u8,
                        timestamp: now,
                    })
                },
                Err(e) => {
                    &&& buy_in_check(*old(self), player, authority) == Err::<(), ErrorCode>(e)
                    &&& *final(self) == *old(self)
                },
            },
    {
        if !(self.authority == authority) {
            return Err(ErrorCode::UnauthorizedAuthority);
        }
        if !(self.phase == TournamentPhase::Registration) {
            return Err(ErrorCode::InvalidPhase);
        }
        if !(self.current_players < self.max_players) {
            return Err(ErrorCode::TournamentFull);
        }
        if !(self.current_players < 255) {
            return Err(ErrorCode::PlayerCountOverflow);
        }
        if is_participant(self, &player) {
            return Err(ErrorCode::AlreadyRegistered);
        }
        let ghost pre = self.participants@;
        self.participants.push(player);
        self.current_players = self.current_players + 1;
        proof {
            assert(forall|k: int| 0 <= k < pre.len() ==> pre[k] != player);
            assert(all_distinct(self.participants@));
        }
        Ok(
            PlayerBoughtIn {
                tournament,
                player,
                buy_in_amount: self.buy_in_amount,
                current_players: self.current_players,
                timestamp: now,
            },
        )
    }
}

/// Per-entry validation of a payout sequence, in order: the first entry
/// outside `1..=10000` basis points fails with `e`.
pub open spec fn payout_entries_check(pcts: Seq<u16>, e: ErrorCode) -> Result<(), ErrorCode>
    decreases pcts.len(),
{
    if pcts.len() == 0 {
        Ok(())
    } else if !(0 < pcts[0] && pcts[0] <= 10000) {
        Err(e)
    } else {
        payout_entries_check(pcts.drop_first(), e)
    }
}

/// A sequence that passes `payout_entries_check` has every entry in
/// `1..=10000` basis points.
pub proof fn lemma_payout_entries_check_ok(pcts: Seq<u16>, e: ErrorCode)
    requires
        payout_entries_check(pcts, e) is Ok,
    ensures
        forall|i: int| 0 <= i < pcts.len() ==> (0 < #[trigger] pcts[i] && pcts[i] <= 10000),
    decreases pcts.len(),
{
    if pcts.len() > 0 {
        lemma_payout_entries_check_ok(pcts.drop_first(), e);
        assert forall|i: int| 0 <= i < pcts.len() implies (0 < #[trigger] pcts[i] && pcts[i]
            <= 10000) by {
            if i > 0 {
                assert(pcts[i] == pcts.drop_first()[i - 1]);
            }
        }
    }
}

/// Walks a payout sequence and reports the first entry outside
/// `1..=10000` basis points with `e`.
fn check_entries(pcts: &Vec<u16>, e: ErrorCode) -> (r: Result<(), ErrorCode>)
    ensures
        r == payout_entries_check(pcts@, e),
{
    let ghost s = pcts@;
    let mut i: usize = 0;
    proof {
        assert(s.skip(0) =~= s);
    }
    while i < pcts.len()
        invariant
            i <= s.len(),
            s == pcts@,
            payout_entries_check(s, e) == payout_entries_check(s.skip(i as int), e),
        decreases s.len() - i,
    {
        proof {
            assert(s.skip(i as int)[0] == s[i as int]);
            assert(s.skip(i as int).drop_first() =~= s.skip(i as int + 1));
        }
        let p = pcts[i];
        if !(0 < p && p <= 10000) {
            return Err(e);
        }
        i = i + 1;
    }
    proof {
        assert(s.skip(s.len() as int) =~= Seq::<u16>::empty());
    }
    Ok(())
}

/// Sums a short payout sequence in basis points.
fn sum_percentages(pcts: &Vec<u16>) -> (r: u32)
    requires
        pcts@.len() <= 20,
    ensures
        r as int == sum_pct(pcts@),
{
    let mut acc: u32 = 0;
    let mut i: usize = 0;
    proof {
        assert(window_pct(pcts@, 0, 0) == 0);
    }
    while i < pcts.len()
        invariant
            i <= pcts@.len(),
            pcts@.len() <= 20,
            acc as int == window_pct(pcts@, 0, i as int),
            acc <= 65535 * i,
        decreases pcts@.len() - i,
    {
        acc = acc + pcts[i] as u32;
        i = i + 1;
    }
    acc
}

/// Copies a payout sequence for a notification.
fn copy_percentages(v: &Vec<u16>) -> (r: Vec<u16>)
    ensures
        r@ == v@,
{
    let mut r: Vec<u16> = Vec::new();
    let mut i: usize = 0;
    while i < v.len()
        invariant
            i <= v@.len(),
            r@ == v@.take(i as int),
        decreases v@.len() - i,
    {
        r.push(v[i]);
        proof {
            assert(v@.take(i as int + 1) =~= v@.take(i as int).push(v@[i as int]));
        }
        i = i + 1;
    }
    proof {
        assert(v@.take(v@.len() as int) =~= v@);
    }
    r
}

/// The checks starting performs, in order: recognized authority,
/// registration phase, at least one player, then both payout sequences
/// validated: length bounds, the tournament sequence no longer than the
/// player count, sums of exactly 10000 basis points, and every entry in
/// `1..=10000`.
pub open spec fn start_check(
    state: TournamentState,
    payout_percentages: Seq<u16>,
    match_payout_percentages: Seq<u16>,
    authority: AccountId,
) -> Result<(), ErrorCode> {
    if state.authority != authority {
        Err(ErrorCode::UnauthorizedAuthority)
    } else if state.phase != TournamentPhase::Registration {
        Err(ErrorCode::InvalidPhase)
    } else if !(state.current_players > 0) {
        Err(ErrorCode::NotEnoughPlayers)
    } else if !(1 <= payout_percentages.len() && payout_percentages.len() <= 20) {
        Err(ErrorCode::InvalidPayoutCount)
    } else if !(payout_percentages.len() <= state.current_players as int) {
        Err(ErrorCode::TooManyPayoutPositions)
    } else if sum_pct(payout_percentages) != 10000 {
        Err(ErrorCode::InvalidPercentages)
    } else if payout_entries_check(payout_percentages, ErrorCode::InvalidPayoutPercentage)
        is Err {
        payout_entries_check(payout_percentages, ErrorCode::InvalidPayoutPercentage)
    } else if !(1 <= match_payout_percentages.len() && match_payout_percentages.len() <= 8) {
        Err(ErrorCode::InvalidMatchPayoutCount)
    } else if sum_pct(match_payout_percentages) != 10000 {
        Err(ErrorCode::InvalidMatchPayoutPercentages)
    } else if payout_entries_check(
        match_payout_percentages,
        ErrorCode::InvalidMatchPayoutPercentage,
    ) is Err {
        payout_entries_check(match_payout_percentages, ErrorCode::InvalidMatchPayoutPercentage)
    } else {
        Ok(())
    }
}

impl TournamentState {
    /// Closes registration and starts play. Both payout sequences are
    /// validated as `start_check` says, stored, and the phase moves to
    /// `Playing`; from then on they are fixed.
    pub fn start_tournament(
        &mut self,
        payout_percentages: Vec<u16>,
        match_payout_percentages: Vec<u16>,
        authority: AccountId,
        tournament: AccountId,
        now: i64,
    ) -> (r: Result<TournamentStarted, ErrorCode>)
        requires
            old(self).well_formed(),
        ensures
            final(self).well_formed(),
            match r {
                Ok(event) => {
                    &&& start_check(
                        *old(self),
                        payout_percentages@,
                        match_payout_percentages@,
                        authority,
                    ) == Ok::<(), ErrorCode>(())
                    &&& same_config(*old(self), *final(self))
                    &&& final(self).phase == TournamentPhase::Playing
                    &&& final(self).participants@ == old(self).participants@
                    &&& final(self).current_players == old(self).current_players
                    &&& final(self).tournament_payouts@ == payout_percentages@
                    &&& final(self).match_payout_percentages@ == match_payout_percentages@
                    &&& final(self).paid_match_ids@ == old(self).paid_match_ids@
                    &&& final(self).refunded_participants@ == old(self).refunded_participants@
                    &&& final(self).operator_fee_withdrawn == old(self).operator_fee_withdrawn
                    &&& event.tournament == tournament
                    &&& event.current_players == old(self).current_players
                    &&& event.payout_percentages@ == payout_percentages@
                    &&& event.match_payout_percentages@ == match_payout_percentages@
                    &&& event.timestamp == now
                },
                Err(e) => {
                    &&& start_check(
                        *old(self),
                        payout_percentages@,
                        match_payout_percentages@,
                        authority,
                    ) == Err::<(), ErrorCode>(e)
                    &&& *final(self) == *old(self)
                },
            },
    {
        if !(self.authority == authority) {
            return Err(ErrorCode::UnauthorizedAuthority);
        }
        if !(self.phase == TournamentPhase::Registration) {
            return Err(ErrorCode::InvalidPhase);
        }
        if !(self.current_players > 0) {
            return Err(ErrorCode::NotEnoughPlayers);
        }
        if payout_percentages.len() == 0 || payout_percentages.len() > 20 {
            return Err(ErrorCode::InvalidPayoutCount);
        }
        if payout_percentages.len() > self.current_players as usize {
            return Err(ErrorCode::TooManyPayoutPositions);
        }
        let total_percentage = sum_percentages(&payout_percentages);
        if total_percentage != 10000 {
            return Err(ErrorCode::InvalidPercentages);
        }
        match check_entries(&payout_percentages, ErrorCode::InvalidPayoutPercentage) {
            Err(e) => {
                return Err(e);
            },
            Ok(()) => {},
        }
        if match_payout_percentages.len() == 0 || match_payout_percentages.len() > 8 {
            return Err(ErrorCode::InvalidMatchPayoutCount);
        }
        let match_total_percentage = sum_percentages(&match_payout_percentages);
        if match_total_percentage != 10000 {
            return Err(ErrorCode::InvalidMatchPayoutPercentages);
        }
        match check_entries(&match_payout_percentages, ErrorCode::InvalidMatchPayoutPercentage) {
            Err(e) => {
                return Err(e);
            },
            Ok(()) => {},
        }
        proof {
            lemma_payout_entries_check_ok(
                payout_percentages@,
                ErrorCode::InvalidPayoutPercentage,
            );
            lemma_payout_entries_check_ok(
                match_payout_percentages@,
                ErrorCode::InvalidMatchPayoutPercentage,
            );
        }
        let event_payouts = copy_percentages(&payout_percentages);
        let event_match_payouts = copy_percentages(&match_payout_percentages);
        self.tournament_payouts = payout_percentages;
        self.match_payout_percentages = match_payout_percentages;
        self.phase = TournamentPhase::Playing;
        Ok(
            TournamentStarted {
                tournament,
                current_players: self.current_players,
                payout_percentages: event_payouts,
                match_payout_percentages: event_match_payouts,
                timestamp: now,
            },
        )
    }
}

/// The checks cancellation performs: recognized authority, and a
/// tournament that has not yet started.
pub open spec fn cancel_check(state: TournamentState, authority: AccountId) -> Result<
    (),
    ErrorCode,
> {
    if state.authority != authority {
        Err(ErrorCode::UnauthorizedAuthority)
    } else if state.phase != TournamentPhase::Registration {
        Err(ErrorCode::TournamentAlreadyStarted)
    } else {
        Ok(())
    }
}

impl TournamentState {
    /// Aborts a tournament during registration. The phase moves to
    /// `Cancelled`, irreversibly; nothing else changes, and refunds
    /// become the only operation left.
    pub fn cancel_tournament(
        &mut self,
        authority: AccountId,
        tournament: AccountId,
        now: i64,
    ) -> (r: Result<TournamentCancelled, ErrorCode>)
        requires
            old(self).well_formed(),
        ensures
            final(self).well_formed(),
            match r {
                Ok(event) => {
                    &&& cancel_check(*old(self), authority) == Ok::<(), ErrorCode>(())
                    &&& same_config(*old(self), *final(self))
                    &&& final(self).phase == TournamentPhase::Cancelled
                    &&& final(self).participants@ == old(self).participants@
                    &&& final(self).current_players == old(self).current_players
                    &&& final(self).tournament_payouts@ == old(self).tournament_payouts@
                    &&& final(self).match_payout_percentages@ == old(
                        self,
                    ).match_payout_percentages@
                    &&& final(self).paid_match_ids@ == old(self).paid_match_ids@
                    &&& final(self).refunded_participants@ == old(self).refunded_participants@
                    &&& final(self).operator_fee_withdrawn == old(self).operator_fee_withdrawn
                    &&& event == (TournamentCancelled { tournament, timestamp: now })
                },
                Err(e) => {
                    &&& cancel_check(*old(self), authority) == Err::<(), ErrorCode>(e)
                    &&& *final(self) == *old(self)
                },
            },
    {
        if !(self.authority == authority) {
            return Err(ErrorCode::UnauthorizedAuthority);
        }
        if !(self.phase == TournamentPhase::Registration) {
            return Err(ErrorCode::TournamentAlreadyStarted);
        }
        self.phase = TournamentPhase::Cancelled;
        Ok(TournamentCancelled { tournament, timestamp: now })
    }
}

/// The one-shot operator fee: the configured basis-point slice of all
/// entry fees paid in.
pub open spec fn operator_fee_of(state: TournamentState) -> int {
    pct_amount(
        total_buy_ins(state.current_players as int, state.buy_in_amount as int),
        state.operator_fee_percentage as int,
    )
}

/// The checks fee withdrawal performs, in order: recognized authority, a
/// finalized tournament, and a fee not yet withdrawn.
pub open spec fn withdraw_check(state: TournamentState, authority: AccountId) -> Result<
    (),
    ErrorCode,
> {
    if state.authority != authority {
        Err(ErrorCode::UnauthorizedAuthority)
    } else if state.phase != TournamentPhase::Finalized {
        Err(ErrorCode::TournamentNotFinalized)
    } else if state.operator_fee_withdrawn {
        Err(ErrorCode::OperatorFeeAlreadyWithdrawn)
    } else {
        Ok(())
    }
}

impl TournamentState {
    /// Withdraws the whole operator fee to the given recipient, exactly
    /// once per tournament: the one-shot latch is set and a repeat call
    /// fails. The transfer the host must perform is returned with the
    /// notification.
    pub fn withdraw_operator_fee(
        &mut self,
        fee_recipient: AccountId,
        authority: AccountId,
        tournament: AccountId,
        now: i64,
    ) -> (r: Result<(Transfer, OperatorFeeWithdrawn), ErrorCode>)
        requires
            old(self).well_formed(),
        ensures
            final(self).well_formed(),
            match r {
                Ok((transfer, event)) => {
                    &&& withdraw_check(*old(self), authority) == Ok::<(), ErrorCode>(())
                    &&& transfer.to == fee_recipient
                    &&& transfer.amount as int == operator_fee_of(*old(self))
                    &&& same_config(*old(self), *final(self))
                    &&& final(self).phase == old(self).phase
                    &&& final(self).participants@ == old(self).participants@
                    &&& final(self).current_players == old(self).current_players
                    &&& final(self).tournament_payouts@ == old(self).tournament_payouts@
                    &&& final(self).match_payout_percentages@ == old(
                        self,
                    ).match_payout_percentages@
                    &&& final(self).paid_match_ids@ == old(self).paid_match_ids@
                    &&& final(self).refunded_participants@ == old(self).refunded_participants@
                    &&& final(self).operator_fee_withdrawn
                    &&& event == (OperatorFeeWithdrawn {
                        tournament,
                        recipient: fee_recipient,
                        amount: transfer.amount,
                        timestamp: now,
                    })
                },
                Err(e) => {
                    &&& withdraw_check(*old(self), authority) == Err::<(), ErrorCode>(e)
                    &&& *final(self) == *old(self)
                },
            },
    {
        if !(self.authority == authority) {
            return Err(ErrorCode::UnauthorizedAuthority);
        }
        if !(self.phase == TournamentPhase::Finalized) {
            return Err(ErrorCode::TournamentNotFinalized);
        }
        if self.operator_fee_withdrawn {
            return Err(ErrorCode::OperatorFeeAlreadyWithdrawn);
        }
        proof {
            crate::arith::lemma_total_times_pct_fits(
                self.current_players as int,
                self.buy_in_amount as int,
                self.operator_fee_percentage as int,
            );
            lemma_pct_amount_le_pool(
                total_buy_ins(self.current_players as int, self.buy_in_amount as int),
                self.operator_fee_percentage as int,
            );
        }
        let total_buy_in_amount = match calculate_total_buy_ins(
            self.current_players,
            self.buy_in_amount,
        ) {
            Ok(t) => t,
            Err(e) => {
                return Err(e);
            },
        };
        let operator_fee = match calculate_percentage_amount(
            total_buy_in_amount,
            self.operator_fee_percentage,
        ) {
            Ok(a) => a,
            Err(e) => {
                return Err(e);
            },
        };
        self.operator_fee_withdrawn = true;
        let transfer = Transfer { to: fee_recipient, amount: operator_fee };
        let event = OperatorFeeWithdrawn {
            tournament,
            recipient: fee_recipient,
            amount: operator_fee,
            timestamp: now,
        };
        Ok((transfer, event))
    }
}

/// The checks a refund performs, in order: recognized authority, a
/// cancelled tournament, a target that registered, and one not yet
/// refunded.
pub open spec fn refund_check(
    state: TournamentState,
    participant: AccountId,
    authority: AccountId,
) -> Result<(), ErrorCode> {
    if state.authority != authority {
        Err(ErrorCode::UnauthorizedAuthority)
    } else if state.phase != TournamentPhase::Cancelled {
        Err(ErrorCode::TournamentNotCancelled)
    } else if !state.participants@.contains(participant) {
        Err(ErrorCode::ParticipantNotFound)
    } else if state.refunded_participants@.contains(participant) {
        Err(ErrorCode::ParticipantAlreadyRefunded)
    } else {
        Ok(())
    }
}

impl TournamentState {
    /// Returns one participant's entry fee after cancellation, exactly
    /// once per participant: the refund ledger records the identity and a
    /// repeat call fails. The transfer the host must perform is returned
    /// with the notification.
    pub fn refund_participant(
        &mut self,
        participant: AccountId,
        authority: AccountId,
        tournament: AccountId,
        now: i64,
    ) -> (r: Result<(Transfer, ParticipantRefunded), ErrorCode>)
        requires
            old(self).well_formed(),
        ensures
            final(self).well_formed(),
            match r {
                Ok((transfer, event)) => {
                    &&& refund_check(*old(self), participant, authority) == Ok::<(), ErrorCode>(
                        (),
                    )
                    &&& transfer.to == participant
                    &&& transfer.amount == old(self).buy_in_amount as u128
                    &&& same_config(*old(self), *final(self))
                    &&& final(self).phase == old(self).phase
                    &&& final(self).participants@ == old(self).participants@
                    &&& final(self).current_players == old(self).current_players
                    &&& final(self).tournament_payouts@ == old(self).tournament_payouts@
                    &&& final(self).match_payout_percentages@ == old(
                        self,
                    ).match_payout_percentages@
                    &&& final(self).paid_match_ids@ == old(self).paid_match_ids@
                    &&& final(self).refunded_participants@ == old(
                        self,
                    ).refunded_participants@.push(participant)
                    &&& final(self).operator_fee_withdrawn == old(self).operator_fee_withdrawn
                    &&& event == (ParticipantRefunded {
                        tournament,
                        participant,
                        amount: old(self).buy_in_amount,
                        timestamp: now,
                    })
                },
                Err(e) => {
                    &&& refund_check(*old(self), participant, authority) == Err::<(), ErrorCode>(
                        e,
                    )
                    &&& *final(self) == *old(self)
                },
            },
    {
        if !(self.authority == authority) {
            return Err(ErrorCode::UnauthorizedAuthority);
        }
        if !(self.phase == TournamentPhase::Cancelled) {
            return Err(ErrorCode::TournamentNotCancelled);
        }
        if !is_participant(self, &participant) {
            return Err(ErrorCode::ParticipantNotFound);
        }
        if contains_account(&self.refunded_participants, participant) {
            return Err(ErrorCode::ParticipantAlreadyRefunded);
        }
        let ghost pre = self.refunded_participants@;
        let amount = self.buy_in_amount;
        self.refunded_participants.push(participant);
        proof {
            assert(forall|k: int| 0 <= k < pre.len() ==> pre[k] != participant);
            assert(all_distinct(self.refunded_participants@));
            assert(forall|i: int|
                0 <= i < self.refunded_participants@.len()
                    ==> self.participants@.contains(#[trigger] self.refunded_participants@[i]));
        }
        let transfer = Transfer { to: participant, amount: amount as u128 };
        let event = ParticipantRefunded { tournament, participant, amount, timestamp: now };
        Ok((transfer, event))
    }
}

/// Sequential validation of the players one winner entry names: the
/// first all-zero identity (when `require_nonzero` demands real
/// identities) or unregistered player fails.
pub open spec fn players_registration_check(
    players: Seq<AccountId>,
    participants: Seq<AccountId>,
    require_nonzero: bool,
) -> Result<(), ErrorCode>
    decreases players.len(),
{
    if players.len() == 0 {
        Ok(())
    } else if require_nonzero && players[0].spec_is_default() {
        Err(ErrorCode::InvalidWinner)
    } else if !participants.contains(players[0]) {
        Err(ErrorCode::WinnerNotParticipant)
    } else {
        players_registration_check(players.drop_first(), participants, require_nonzero)
    }
}

/// Sequential validation of every player a winner list names, in list
/// order.
pub open spec fn winners_registration_check(
    ws: Seq<Winner>,
    participants: Seq<AccountId>,
    require_nonzero: bool,
) -> Result<(), ErrorCode>
    decreases ws.len(),
{
    if ws.len() == 0 {
        Ok(())
    } else {
        match players_registration_check(winner_players(ws[0]), participants, require_nonzero) {
            Err(e) => Err(e),
            Ok(()) => winners_registration_check(ws.drop_first(), participants, require_nonzero),
        }
    }
}

/// Walks a winner list and reports the first named player that is the
/// all-zero placeholder (when demanded) or not a registered participant.
#[verifier::loop_isolation(false)]
fn check_winners_registered(
    winners: &Vec<Winner>,
    state: &TournamentState,
    require_nonzero: bool,
) -> (r: Result<(), ErrorCode>)
    ensures
        r == winners_registration_check(winners@, state.participants@, require_nonzero),
{
    let ghost ws = winners@;
    let ghost parts = state.participants@;
    let mut i: usize = 0;
    proof {
        assert(ws.skip(0) =~= ws);
    }
    while i < winners.len()
        invariant
            i <= ws.len(),
            winners_registration_check(ws, parts, require_nonzero) == winners_registration_check(
                ws.skip(i as int),
                parts,
                require_nonzero,
            ),
        decreases ws.len() - i,
    {
        proof {
            assert(ws.skip(i as int)[0] == ws[i as int]);
            assert(ws.skip(i as int).drop_first() =~= ws.skip(i as int + 1));
        }
        match &winners[i] {
            Winner::Individual(player) => {
                proof {
                    assert(winner_players(ws[i as int]) =~= seq![*player]);
                    assert(seq![*player].drop_first() =~= Seq::<AccountId>::empty());
                }
                if require_nonzero && player.is_default() {
                    return Err(ErrorCode::InvalidWinner);
                }
                if !is_participant(state, player) {
                    return Err(ErrorCode::WinnerNotParticipant);
                }
                proof {
                    assert(players_registration_check(
                        Seq::<AccountId>::empty(),
                        parts,
                        require_nonzero,
                    ) == Ok::<(), ErrorCode>(()));
                }
            },
            Winner::Group(players, _) => {
                let mut j: usize = 0;
                proof {
                    assert(players@.skip(0) =~= players@);
                    assert(winner_players(ws[i as int]) == players@);
                }
                while j < players.len()
                    invariant
                        j <= players@.len(),
                        players_registration_check(players@, parts, require_nonzero)
                            == players_registration_check(
                            players@.skip(j as int),
                            parts,
                            require_nonzero,
                        ),
                    decreases players@.len() - j,
                {
                    proof {
                        assert(players@.skip(j as int)[0] == players@[j as int]);
                        assert(players@.skip(j as int).drop_first() =~= players@.skip(
                            j as int + 1,
                        ));
                    }
                    let p = players[j];
                    if require_nonzero && p.is_default() {
                        return Err(ErrorCode::InvalidWinner);
                    }
                    if !is_participant(state, &p) {
                        return Err(ErrorCode::WinnerNotParticipant);
                    }
                    j = j + 1;
                }
                proof {
                    assert(players@.skip(players@.len() as int) =~= Seq::<AccountId>::empty());
                    assert(players_registration_check(
                        Seq::<AccountId>::empty(),
                        parts,
                        require_nonzero,
                    ) == Ok::<(), ErrorCode>(()));
                }
            },
        }
        i = i + 1;
    }
    proof {
        assert(ws.skip(ws.len() as int) =~= Seq::<Winner>::empty());
    }
    Ok(())
}

/// The pool reserved for tournament prizes: the configured basis-point
/// slice of all entry fees paid in.
pub open spec fn tournament_pool_of(state: TournamentState) -> int {
    pct_amount(
        total_buy_ins(state.current_players as int, state.buy_in_amount as int),
        state.tournament_prize_percentage as int,
    )
}

/// The pool reserved for all match prizes together.
pub open spec fn total_match_pool_of(state: TournamentState) -> int {
    pct_amount(
        total_buy_ins(state.current_players as int, state.buy_in_amount as int),
        state.match_prize_percentage as int,
    )
}

/// The number of matches: the player count divided by the match size,
/// rounded up.
pub open spec fn num_matches_of(state: TournamentState) -> int {
    (state.current_players as int + state.match_size as int - 1) / state.match_size as int
}

/// One match's pool: the whole match pool split evenly, rounded down.
pub open spec fn match_pool_of(state: TournamentState) -> int {
    total_match_pool_of(state) / num_matches_of(state)
}

/// The checks finalization performs, in order: recognized authority, a
/// playing tournament, a non-empty winner list, every named winner a
/// registered participant, then the resolution of the list against the
/// tournament payout sequence.
pub open spec fn finalize_check(
    state: TournamentState,
    winners: Seq<Winner>,
    accounts: Seq<AccountId>,
    authority: AccountId,
) -> Result<Seq<Payout>, ErrorCode> {
    if state.authority != authority {
        Err(ErrorCode::UnauthorizedAuthority)
    } else if state.phase != TournamentPhase::Playing {
        Err(ErrorCode::InvalidPhase)
    } else if winners.len() == 0 {
        Err(ErrorCode::InvalidWinnerCount)
    } else {
        match winners_registration_check(winners, state.participants@, false) {
            Err(e) => Err(e),
            Ok(()) => resolve_winners(
                tournament_pool_of(state),
                state.tournament_payouts@,
                0,
                winners,
                accounts,
            ),
        }
    }
}

impl TournamentState {
    /// Distributes the tournament prize pool over the winner list and
    /// finalizes the tournament. `accounts` are the transfer
    /// destinations the caller provided; every paid winner must be among
    /// them. On success the returned transfers are exactly what
    /// `finalize_check` resolves, their total never exceeds the
    /// tournament pool, and the phase moves to `Finalized`.
    pub fn finalize_tournament(
        &mut self,
        winners: Vec<Winner>,
        accounts: &Vec<AccountId>,
        authority: AccountId,
        tournament: AccountId,
        now: i64,
    ) -> (r: Result<(Vec<Transfer>, TournamentFinalized), ErrorCode>)
        requires
            old(self).well_formed(),
            consumed_total(winners@) <= usize::MAX as int,
        ensures
            final(self).well_formed(),
            match r {
                Ok((transfers, event)) => {
                    &&& finalize_check(*old(self), winners@, accounts@, authority) == Ok::<
                        Seq<Payout>,
                        ErrorCode,
                    >(payouts_of(transfers@))
                    &&& same_config(*old(self), *final(self))
                    &&& final(self).phase == TournamentPhase::Finalized
                    &&& final(self).participants@ == old(self).participants@
                    &&& final(self).current_players == old(self).current_players
                    &&& final(self).tournament_payouts@ == old(self).tournament_payouts@
                    &&& final(self).match_payout_percentages@ == old(
                        self,
                    ).match_payout_percentages@
                    &&& final(self).paid_match_ids@ == old(self).paid_match_ids@
                    &&& final(self).refunded_participants@ == old(self).refunded_participants@
                    &&& final(self).operator_fee_withdrawn == old(self).operator_fee_withdrawn
                    &&& event.tournament == tournament
                    &&& event.winners@ == flatten_winners(winners@)
                    &&& event.total_prize_pool as int == sum_payouts(payouts_of(transfers@))
                    &&& event.total_prize_pool as int <= tournament_pool_of(*old(self))
                    &&& event.timestamp == now
                },
                Err(e) => {
                    &&& finalize_check(*old(self), winners@, accounts@, authority) == Err::<
                        Seq<Payout>,
                        ErrorCode,
                    >(e)
                    &&& *final(self) == *old(self)
                },
            },
    {
        if !(self.authority == authority) {
            return Err(ErrorCode::UnauthorizedAuthority);
        }
        if !(self.phase == TournamentPhase::Playing) {
            return Err(ErrorCode::InvalidPhase);
        }
        if winners.len() == 0 {
            return Err(ErrorCode::InvalidWinnerCount);
        }
        match check_winners_registered(&winners, self, false) {
            Err(e) => {
                return Err(e);
            },
            Ok(()) => {},
        }
        proof {
            crate::arith::lemma_total_times_pct_fits(
                self.current_players as int,
                self.buy_in_amount as int,
                self.tournament_prize_percentage as int,
            );
            lemma_pct_amount_le_pool(
                total_buy_ins(self.current_players as int, self.buy_in_amount as int),
                self.tournament_prize_percentage as int,
            );
            lemma_pct_amount_nonneg(
                total_buy_ins(self.current_players as int, self.buy_in_amount as int),
                self.tournament_prize_percentage as int,
            );
        }
        let total_buy_in_amount = match calculate_total_buy_ins(
            self.current_players,
            self.buy_in_amount,
        ) {
            Ok(t) => t,
            Err(e) => {
                return Err(e);
            },
        };
        let tournament_pool = match calculate_percentage_amount(
            total_buy_in_amount,
            self.tournament_prize_percentage,
        ) {
            Ok(p) => p,
            Err(e) => {
                return Err(e);
            },
        };
        proof {
            assert(tournament_pool as int * 10000 <= total_buy_in_amount as int * 10000)
                by (nonlinear_arith)
                requires
                    0 <= tournament_pool as int <= total_buy_in_amount as int,
            ;
        }
        let batch = match distribute_prizes(
            tournament_pool,
            &self.tournament_payouts,
            &winners,
            accounts,
        ) {
            Ok(b) => b,
            Err(e) => {
                return Err(e);
            },
        };
        if !(batch.total_distributed <= tournament_pool) {
            return Err(ErrorCode::CalculationOverflow);
        }
        self.phase = TournamentPhase::Finalized;
        let all_winners = flatten(&winners);
        let event = TournamentFinalized {
            tournament,
            winners: all_winners,
            total_prize_pool: batch.total_distributed,
            timestamp: now,
        };
        Ok((batch.transfers, event))
    }
}

/// The checks match distribution performs, in order: recognized
/// authority, a finalized tournament, an unpaid match identifier, a
/// non-empty winner list, every named winner real and registered, then a
/// positive per-match pool and the resolution of the list against the
/// match payout sequence.
pub open spec fn distribute_match_check(
    state: TournamentState,
    match_id_hash: u32,
    winners: Seq<Winner>,
    accounts: Seq<AccountId>,
    authority: AccountId,
) -> Result<Seq<Payout>, ErrorCode> {
    if state.authority != authority {
        Err(ErrorCode::UnauthorizedAuthority)
    } else if state.phase != TournamentPhase::Finalized {
        Err(ErrorCode::TournamentNotFinalized)
    } else if state.paid_match_ids@.contains(match_id_hash) {
        Err(ErrorCode::MatchAlreadyPaid)
    } else if winners.len() == 0 {
        Err(ErrorCode::InvalidWinnerCount)
    } else {
        match winners_registration_check(winners, state.participants@, true) {
            Err(e) => Err(e),
            Ok(()) => {
                if num_matches_of(state) == 0 {
                    Err(ErrorCode::InvalidMatchCount)
                } else if match_pool_of(state) == 0 {
                    Err(ErrorCode::NoMatchRewards)
                } else {
                    resolve_winners(
                        match_pool_of(state),
                        state.match_payout_percentages@,
                        0,
                        winners,
                        accounts,
                    )
                }
            },
        }
    }
}

impl TournamentState {
    /// Distributes one match's pool over the winner list, once per
    /// distinct match identifier: the identifier joins the paid ledger
    /// and a repeat call fails. On success the returned transfers are
    /// exactly what `distribute_match_check` resolves and their total
    /// never exceeds the per-match pool.
    pub fn distribute_match_rewards(
        &mut self,
        match_id_hash: u32,
        winners: Vec<Winner>,
        accounts: &Vec<AccountId>,
        authority: AccountId,
        tournament: AccountId,
        now: i64,
    ) -> (r: Result<(Vec<Transfer>, MatchRewardsDistributed), ErrorCode>)
        requires
            old(self).well_formed(),
            consumed_total(winners@) <= usize::MAX as int,
        ensures
            final(self).well_formed(),
            match r {
                Ok((transfers, event)) => {
                    &&& distribute_match_check(
                        *old(self),
                        match_id_hash,
                        winners@,
                        accounts@,
                        authority,
                    ) == Ok::<Seq<Payout>, ErrorCode>(payouts_of(transfers@))
                    &&& same_config(*old(self), *final(self))
                    &&& final(self).phase == old(self).phase
                    &&& final(self).participants@ == old(self).participants@
                    &&& final(self).current_players == old(self).current_players
                    &&& final(self).tournament_payouts@ == old(self).tournament_payouts@
                    &&& final(self).match_payout_percentages@ == old(
                        self,
                    ).match_payout_percentages@
                    &&& final(self).paid_match_ids@ == old(self).paid_match_ids@.push(
                        match_id_hash,
                    )
                    &&& final(self).refunded_participants@ == old(self).refunded_participants@
                    &&& final(self).operator_fee_withdrawn == old(self).operator_fee_withdrawn
                    &&& event.tournament == tournament
                    &&& event.match_id == match_id_hash
                    &&& event.winners@ == flatten_winners(winners@)
                    &&& event.total_match_pool as int == sum_payouts(payouts_of(transfers@))
                    &&& event.total_match_pool as int <= match_pool_of(*old(self))
                    &&& event.timestamp == now
                },
                Err(e) => {
                    &&& distribute_match_check(
                        *old(self),
                        match_id_hash,
                        winners@,
                        accounts@,
                        authority,
                    ) == Err::<Seq<Payout>, ErrorCode>(e)
                    &&& *final(self) == *old(self)
                },
            },
    {
        if !(self.authority == authority) {
            return Err(ErrorCode::UnauthorizedAuthority);
        }
        if !(self.phase == TournamentPhase::Finalized) {
            return Err(ErrorCode::TournamentNotFinalized);
        }
        if is_match_paid(self, match_id_hash) {
            return Err(ErrorCode::MatchAlreadyPaid);
        }
        if winners.len() == 0 {
            return Err(ErrorCode::InvalidWinnerCount);
        }
        match check_winners_registered(&winners, self, true) {
            Err(e) => {
                return Err(e);
            },
            Ok(()) => {},
        }
        proof {
            crate::arith::lemma_total_times_pct_fits(
                self.current_players as int,
                self.buy_in_amount as int,
                self.match_prize_percentage as int,
            );
            lemma_pct_amount_le_pool(
                total_buy_ins(self.current_players as int, self.buy_in_amount as int),
                self.match_prize_percentage as int,
            );
            lemma_pct_amount_nonneg(
                total_buy_ins(self.current_players as int, self.buy_in_amount as int),
                self.match_prize_percentage as int,
            );
        }
        let total_buy_in_amount = match calculate_total_buy_ins(
            self.current_players,
            self.buy_in_amount,
        ) {
            Ok(t) => t,
            Err(e) => {
                return Err(e);
            },
        };
        let total_match_pool = match calculate_percentage_amount(
            total_buy_in_amount,
            self.match_prize_percentage,
        ) {
            Ok(p) => p,
            Err(e) => {
                return Err(e);
            },
        };
        let num_matches: u128 = (self.current_players as u128 + self.match_size as u128 - 1)
            / self.match_size as u128;
        proof {
            assert(num_matches as int == num_matches_of(*self));
            assert((self.current_players as int + self.match_size as int - 1)
                / self.match_size as int >= 1) by (nonlinear_arith)
                requires
                    self.current_players as int >= 1,
                    self.match_size as int >= 2,
            ;
        }
        if !(num_matches > 0) {
            return Err(ErrorCode::InvalidMatchCount);
        }
        let match_pool = total_match_pool / num_matches;
        if !(match_pool > 0) {
            return Err(ErrorCode::NoMatchRewards);
        }
        proof {
            assert(match_pool as int * num_matches as int <= total_match_pool as int
                && match_pool as int <= total_match_pool as int) by (nonlinear_arith)
                requires
                    match_pool as int == total_match_pool as int / num_matches as int,
                    total_match_pool as int >= 0,
                    num_matches as int >= 1,
            ;
        }
        if !(match_pool * num_matches <= total_match_pool) {
            return Err(ErrorCode::CalculationOverflow);
        }
        proof {
            assert(match_pool as int * 10000 <= total_buy_in_amount as int * 10000)
                by (nonlinear_arith)
                requires
                    0 <= match_pool as int <= total_buy_in_amount as int,
            ;
        }
        let batch = match distribute_prizes(
            match_pool,
            &self.match_payout_percentages,
            &winners,
            accounts,
        ) {
            Ok(b) => b,
            Err(e) => {
                return Err(e);
            },
        };
        if !(batch.total_distributed <= match_pool) {
            return Err(ErrorCode::CalculationOverflow);
        }
        let ghost pre_paid = self.paid_match_ids@;
        self.paid_match_ids.push(match_id_hash);
        proof {
            assert(forall|k: int| 0 <= k < pre_paid.len() ==> pre_paid[k] != match_id_hash);
            assert(all_distinct(self.paid_match_ids@));
        }
        let all_winners = flatten(&winners);
        let event = MatchRewardsDistributed {
            tournament,
            match_id: match_id_hash,
            winners: all_winners,
            total_match_pool: batch.total_distributed,
            timestamp: now,
        };
        Ok((batch.transfers, event))
    }
}

} // verus!
