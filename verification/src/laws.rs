//! The engine's guarantees, written down as proved statements.
//!
//! Each of these is a property of the operations' check specifications
//! and of winner resolution that holds for every input, not just the
//! ones a test happens to exercise: the basis-point splits are enforced
//! exactly, registration respects the cap, a match and a refund are paid
//! at most once, finalization never hands out more than the tournament
//! pool, and a tied group receives its combined amount exactly.

use vstd::prelude::*;

use crate::account_id::AccountId;
use crate::arith::lemma_pct_amount_full;
use crate::arith::lemma_pct_amount_monotone;
use crate::arith::lemma_pct_amount_nonneg;
use crate::arith::total_buy_ins;
use crate::distribution::Payout;
use crate::distribution::lemma_group_split_exact;
use crate::distribution::lemma_resolve_conserves;
use crate::distribution::lemma_window_pct_beyond;
use crate::distribution::lemma_window_pct_concat;
use crate::distribution::lemma_window_pct_le_sum;
use crate::distribution::lemma_window_pct_nonneg;
use crate::distribution::resolve_one;
use crate::distribution::resolve_winners;
use crate::distribution::sum_pct;
use crate::distribution::sum_payouts;
use crate::distribution::window_pct;
use crate::errors::ErrorCode;
use crate::ops::buy_in_check;
use crate::ops::create_check;
use crate::ops::distribute_match_check;
use crate::ops::finalize_check;
use crate::ops::refund_check;
use crate::ops::start_check;
use crate::ops::tournament_pool_of;
use crate::state::TournamentPhase;
use crate::state::TournamentState;
use crate::winner::Winner;
use crate::winner::consumed_total;
use crate::winner::lemma_consumed_total_nonneg;
use crate::winner::winner_consumed;

verus! {

/// A configuration is only accepted at creation when its three
/// basis-point splits sum to exactly 10000; any other sum is refused
/// before a state exists.
pub proof fn lemma_create_requires_full_split(
    approved_creators: Seq<AccountId>,
    payer: AccountId,
    buy_in_amount: u64,
    max_players: u8,
    match_size: u8,
    tournament_prize_percentage: u16,
    match_prize_percentage: u16,
    operator_fee_percentage: u16,
)
    ensures
        create_check(
            approved_creators,
            payer,
            buy_in_amount,
            max_players,
            match_size,
            tournament_prize_percentage,
            match_prize_percentage,
            operator_fee_percentage,
        ) is Ok ==> tournament_prize_percentage as int + match_prize_percentage as int
            + operator_fee_percentage as int == 10000,
{
}

/// Registration never exceeds the cap: a buy-in is only admitted while
/// the player count is strictly below `max_players`, and on a full
/// tournament the attempt is refused as full.
pub proof fn lemma_registration_capped(
    state: TournamentState,
    player: AccountId,
    authority: AccountId,
)
    requires
        state.well_formed(),
    ensures
        buy_in_check(state, player, authority) is Ok ==> state.current_players
            < state.max_players,
        state.authority == authority && state.phase == TournamentPhase::Registration
            && state.current_players == state.max_players ==> buy_in_check(
            state,
            player,
            authority,
        ) == Err::<(), ErrorCode>(ErrorCode::TournamentFull),
{
}

/// Payout sequences are only accepted at start when each sums to
/// exactly 10000 basis points; 9999 or 10001 is refused.
pub proof fn lemma_start_requires_full_split(
    state: TournamentState,
    payout_percentages: Seq<u16>,
    match_payout_percentages: Seq<u16>,
    authority: AccountId,
)
    ensures
        start_check(state, payout_percentages, match_payout_percentages, authority) is Ok
            ==> sum_pct(payout_percentages) == 10000 && sum_pct(match_payout_percentages)
            == 10000,
{
}

/// Idempotence of match payment: once a match identifier stands in the
/// paid ledger of a well-formed state, a second distribution for the
/// same identifier is refused as a duplicate, whatever winner list and
/// accounts are supplied.
pub proof fn lemma_distribute_match_idempotent(
    state: TournamentState,
    match_id_hash: u32,
    winners: Seq<Winner>,
    accounts: Seq<AccountId>,
    authority: AccountId,
)
    requires
        state.well_formed(),
        state.authority == authority,
        state.paid_match_ids@.contains(match_id_hash),
    ensures
        distribute_match_check(state, match_id_hash, winners, accounts, authority) == Err::<
            Seq<Payout>,
            ErrorCode,
        >(ErrorCode::MatchAlreadyPaid),
{
    assert(state.paid_match_ids@.len() > 0);
    assert(state.phase == TournamentPhase::Finalized);
}

/// Idempotence of refunds: once a participant stands in the refunded
/// ledger of a well-formed state, a second refund for the same
/// participant is refused as a duplicate.
pub proof fn lemma_refund_idempotent(
    state: TournamentState,
    participant: AccountId,
    authority: AccountId,
)
    requires
        state.well_formed(),
        state.authority == authority,
        state.refunded_participants@.contains(participant),
    ensures
        refund_check(state, participant, authority) == Err::<(), ErrorCode>(
            ErrorCode::ParticipantAlreadyRefunded,
        ),
{
    assert(state.refunded_participants@.len() > 0);
    assert(state.phase == TournamentPhase::Cancelled);
    let i = choose|i: int|
        0 <= i < state.refunded_participants@.len() && state.refunded_participants@[i]
            == participant;
    assert(state.participants@.contains(state.refunded_participants@[i]));
}

/// Conservation: whatever winner list a finalization accepts, the sum of
/// all transfers it produces never exceeds the tournament prize pool,
/// the configured basis-point slice of all entry fees paid in.
pub proof fn lemma_finalize_conservation(
    state: TournamentState,
    winners: Seq<Winner>,
    accounts: Seq<AccountId>,
    authority: AccountId,
    payouts: Seq<Payout>,
)
    requires
        state.well_formed(),
        finalize_check(state, winners, accounts, authority) == Ok::<Seq<Payout>, ErrorCode>(
            payouts,
        ),
    ensures
        0 <= sum_payouts(payouts),
        sum_payouts(payouts) <= tournament_pool_of(state),
{
    let total = total_buy_ins(state.current_players as int, state.buy_in_amount as int);
    let pool = tournament_pool_of(state);
    let pcts = state.tournament_payouts@;
    assert(total >= 0) by (nonlinear_arith)
        requires
            state.current_players >= 0,
            state.buy_in_amount >= 0,
            total == state.current_players as int * state.buy_in_amount as int,
    ;
    lemma_pct_amount_nonneg(total, state.tournament_prize_percentage as int);
    assert(resolve_winners(pool, pcts, 0, winners, accounts) == Ok::<
        Seq<Payout>,
        ErrorCode,
    >(payouts));
    lemma_resolve_conserves(pool, pcts, 0, winners, accounts, payouts);
    lemma_consumed_total_nonneg(winners);
    lemma_window_pct_nonneg(pcts, 0, consumed_total(winners));
    lemma_window_pct_le_sum(pcts, consumed_total(winners));
    lemma_pct_amount_monotone(pool, window_pct(pcts, 0, consumed_total(winners)), 10000);
    lemma_pct_amount_full(pool);
}

/// The equality case of conservation: when the whole payout span goes to
/// one tied group — a single entry consuming at least every payout
/// position — the group receives exactly the tournament pool, nothing
/// lost to rounding. (With several entries each takes the floor of its
/// own slice, so the total can fall short of the pool.)
pub proof fn lemma_finalize_exact_for_full_group(
    state: TournamentState,
    w: Winner,
    accounts: Seq<AccountId>,
    authority: AccountId,
    payouts: Seq<Payout>,
)
    requires
        state.well_formed(),
        w is Group,
        winner_consumed(w) >= state.tournament_payouts@.len(),
        finalize_check(state, seq![w], accounts, authority) == Ok::<Seq<Payout>, ErrorCode>(
            payouts,
        ),
    ensures
        sum_payouts(payouts) == tournament_pool_of(state),
{
    let pool = tournament_pool_of(state);
    let pcts = state.tournament_payouts@;
    let k = winner_consumed(w);
    let ws = seq![w];
    assert(ws[0] == w);
    assert(ws.drop_first() =~= Seq::<Winner>::empty());
    assert(resolve_winners(pool, pcts, k, Seq::<Winner>::empty(), accounts) == Ok::<
        Seq<Payout>,
        ErrorCode,
    >(Seq::empty()));
    let first = resolve_one(pool, pcts, 0, w, accounts)->Ok_0;
    assert(payouts == first + Seq::<Payout>::empty());
    assert(payouts =~= first);
    lemma_window_pct_concat(pcts, 0, pcts.len() as int, k - pcts.len() as int);
    lemma_window_pct_beyond(pcts, pcts.len() as int, k - pcts.len() as int);
    assert(window_pct(pcts, 0, k) == 10000);
    let total = total_buy_ins(state.current_players as int, state.buy_in_amount as int);
    assert(total >= 0) by (nonlinear_arith)
        requires
            state.current_players >= 0,
            state.buy_in_amount >= 0,
            total == state.current_players as int * state.buy_in_amount as int,
    ;
    lemma_pct_amount_nonneg(total, state.tournament_prize_percentage as int);
    lemma_pct_amount_full(pool);
    let players = w->Group_0;
    lemma_group_split_exact(players@, pool, accounts, payouts);
}

} // verus!
