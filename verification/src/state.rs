//! The tournament entity: phase lifecycle, participants and ledgers.
//!
//! One value of `TournamentState` is one tournament: an immutable
//! configuration fixed at creation, a phase that only ever moves
//! `Registration -> Playing -> Finalized` or `Registration -> Cancelled`,
//! the ordered participant list, the payout sequences fixed when play
//! starts, and the idempotency ledgers of paid matches and refunded
//! participants. `well_formed` is the invariant every operation preserves.

use vstd::prelude::*;

use crate::account_id::AccountId;
use crate::account_id::contains_account;
use crate::distribution::sum_pct;
use crate::distribution::window_pct;

verus! {

/// Lifecycle phase of a tournament.
#[derive(Clone, Copy, PartialEq, Eq, Structural, Debug)]
pub enum TournamentPhase {
    /// Players may buy in; the tournament may start or be cancelled.
    Registration,
    /// Matches are being played; the tournament may be finalized.
    Playing,
    /// Prizes are settled; match payouts and the one-shot operator fee
    /// withdrawal remain. Terminal.
    Finalized,
    /// Aborted from registration; participants may be refunded. Terminal.
    Cancelled,
}

/// No element appears twice.
pub open spec fn all_distinct<T>(s: Seq<T>) -> bool {
    forall|i: int, j: int| 0 <= i < j < s.len() ==> s[i] != s[j]
}

/// A payout percentage sequence as validated at start: non-empty, at most
/// `max_len` entries, each in `1..=10000` basis points, summing to
/// exactly 10000.
pub open spec fn valid_payout_seq(pcts: Seq<u16>, max_len: int) -> bool {
    &&& 1 <= pcts.len() <= max_len
    &&& sum_pct(pcts) == 10000
    &&& forall|i: int| 0 <= i < pcts.len() ==> (0 < #[trigger] pcts[i] && pcts[i] <= 10000)
}

/// One tournament's full mutable state.
#[derive(Clone, Debug)]
pub struct TournamentState {
    /// Entry fee each player pays into the vault, in base units.
    pub buy_in_amount: u64,
    /// Registration cap, between 2 and 100.
    pub max_players: u8,
    /// Number of registered players; always the participant list's length.
    pub current_players: u8,
    /// Players per match, between 2 and `max_players`.
    pub match_size: u8,
    /// Lifecycle phase.
    pub phase: TournamentPhase,
    /// Registered players, unique, in buy-in order.
    pub participants: Vec<AccountId>,
    /// Match identifiers already paid; the idempotency ledger of match
    /// payouts.
    pub paid_match_ids: Vec<u32>,
    /// Basis points of all buy-ins reserved for tournament prizes.
    pub tournament_prize_percentage: u16,
    /// Basis points of all buy-ins reserved for match prizes.
    pub match_prize_percentage: u16,
    /// Basis points of all buy-ins reserved for the operator.
    pub operator_fee_percentage: u16,
    /// Ranked tournament payout percentages, fixed at start.
    pub tournament_payouts: Vec<u16>,
    /// Ranked per-match payout percentages, fixed at start.
    pub match_payout_percentages: Vec<u16>,
    /// One-shot latch of the operator fee withdrawal.
    pub operator_fee_withdrawn: bool,
    /// Identity permitted to perform authority-gated operations.
    pub authority: AccountId,
    /// Participants already refunded after cancellation.
    pub refunded_participants: Vec<AccountId>,
}

impl TournamentState {
    /// The configuration constraints enforced at creation.
    pub open spec fn config_well_formed(self) -> bool {
        &&& self.buy_in_amount > 0
        &&& 2 <= self.max_players <= 100
        &&& 2 <= self.match_size <= self.max_players
        &&& self.tournament_prize_percentage >= 5000
        &&& 0 < self.operator_fee_percentage <= 1500
        &&& self.tournament_prize_percentage as int + self.match_prize_percentage as int
            + self.operator_fee_percentage as int == 10000
    }

    /// The payout sequences as they must look from the moment play starts.
    pub open spec fn payouts_valid(self) -> bool {
        &&& valid_payout_seq(self.tournament_payouts@, 20)
        &&& self.tournament_payouts@.len() <= self.current_players as int
        &&& valid_payout_seq(self.match_payout_percentages@, 8)
        &&& self.current_players >= 1
    }

    /// The invariant of every reachable tournament state: the
    /// configuration is valid, the participant count matches the list,
    /// no identity or identifier appears twice in a ledger, refunds only
    /// name participants, and each phase carries exactly the data its
    /// place in the lifecycle allows.
    pub open spec fn well_formed(self) -> bool {
        &&& self.config_well_formed()
        &&& self.current_players as int == self.participants@.len()
        &&& self.participants@.len() <= self.max_players as int
        &&& all_distinct(self.participants@)
        &&& all_distinct(self.paid_match_ids@)
        &&& all_distinct(self.refunded_participants@)
        &&& forall|i: int|
            0 <= i < self.refunded_participants@.len() ==> self.participants@.contains(
                self.refunded_participants@[i],
            )
        &&& match self.phase {
            TournamentPhase::Registration => {
                &&& self.tournament_payouts@.len() == 0
                &&& self.match_payout_percentages@.len() == 0
                &&& self.paid_match_ids@.len() == 0
                &&& !self.operator_fee_withdrawn
                &&& self.refunded_participants@.len() == 0
            },
            TournamentPhase::Playing => {
                &&& self.payouts_valid()
                &&& self.paid_match_ids@.len() == 0
                &&& !self.operator_fee_withdrawn
                &&& self.refunded_participants@.len() == 0
            },
            TournamentPhase::Finalized => {
                &&& self.payouts_valid()
                &&& self.refunded_participants@.len() == 0
            },
            TournamentPhase::Cancelled => {
                &&& self.tournament_payouts@.len() == 0
                &&& self.match_payout_percentages@.len() == 0
                &&& self.paid_match_ids@.len() == 0
                &&& !self.operator_fee_withdrawn
            },
        }
    }
}

/// Whether no account appears twice in `v`.
#[verifier::loop_isolation(false)]
fn all_distinct_accounts(v: &Vec<AccountId>) -> (r: bool)
    ensures
        r == all_distinct(v@),
{
    let mut i: usize = 0;
    while i < v.len()
        invariant
            i <= v@.len(),
            forall|a: int, b: int| 0 <= a < b < v@.len() && a < i ==> v@[a] != v@[b],
        decreases v@.len() - i,
    {
        let mut j: usize = i + 1;
        while j < v.len()
            invariant
                i < j <= v@.len(),
                forall|b: int| i < b < j ==> v@[i as int] != v@[b],
            decreases v@.len() - j,
        {
            if v[i] == v[j] {
                proof {
                    assert(!all_distinct(v@)) by {
                        assert(v@[i as int] == v@[j as int]);
                    }
                }
                return false;
            }
            j = j + 1;
        }
        i = i + 1;
    }
    true
}

/// Whether no identifier appears twice in `v`.
#[verifier::loop_isolation(false)]
fn all_distinct_ids(v: &Vec<u32>) -> (r: bool)
    ensures
        r == all_distinct(v@),
{
    let mut i: usize = 0;
    while i < v.len()
        invariant
            i <= v@.len(),
            forall|a: int, b: int| 0 <= a < b < v@.len() && a < i ==> v@[a] != v@[b],
        decreases v@.len() - i,
    {
        let mut j: usize = i + 1;
        while j < v.len()
            invariant
                i < j <= v@.len(),
                forall|b: int| i < b < j ==> v@[i as int] != v@[b],
            decreases v@.len() - j,
        {
            if v[i] == v[j] {
                proof {
                    assert(!all_distinct(v@)) by {
                        assert(v@[i as int] == v@[j as int]);
                    }
                }
                return false;
            }
            j = j + 1;
        }
        i = i + 1;
    }
    true
}

/// Whether `pcts` is a payout sequence as `valid_payout_seq` demands.
#[verifier::loop_isolation(false)]
fn is_valid_payout_seq(pcts: &Vec<u16>, max_len: usize) -> (r: bool)
    requires
        max_len <= 20,
    ensures
        r == valid_payout_seq(pcts@, max_len as int),
{
    if pcts.len() == 0 || pcts.len() > max_len {
        return false;
    }
    let mut acc: u32 = 0;
    let mut i: usize = 0;
    proof {
        assert(window_pct(pcts@, 0, 0) == 0);
    }
    while i < pcts.len()
        invariant
            i <= pcts@.len(),
            acc as int == window_pct(pcts@, 0, i as int),
            acc <= 65535 * i,
            forall|k: int| 0 <= k < i ==> (0 < #[trigger] pcts@[k] && pcts@[k] <= 10000),
        decreases pcts@.len() - i,
    {
        let p = pcts[i];
        if !(0 < p && p <= 10000) {
            return false;
        }
        acc = acc + p as u32;
        i = i + 1;
    }
    acc == 10000
}

impl TournamentState {
    /// Whether this state satisfies `well_formed`, decided at run time:
    /// the host uses this to validate a state loaded from storage before
    /// operating on it.
    #[verifier::loop_isolation(false)]
    pub fn check_well_formed(&self) -> (r: bool)
        ensures
            r == self.well_formed(),
    {
        if !(self.buy_in_amount > 0 && self.max_players >= 2 && self.max_players <= 100
            && self.match_size >= 2 && self.match_size <= self.max_players
            && self.tournament_prize_percentage >= 5000 && self.operator_fee_percentage > 0
            && self.operator_fee_percentage <= 1500) {
            return false;
        }
        if self.tournament_prize_percentage as u32 + self.match_prize_percentage as u32
            + self.operator_fee_percentage as u32 != 10000 {
            return false;
        }
        if !(self.current_players as usize == self.participants.len()) {
            return false;
        }
        if !(self.participants.len() <= self.max_players as usize) {
            return false;
        }
        if !all_distinct_accounts(&self.participants) {
            return false;
        }
        if !all_distinct_ids(&self.paid_match_ids) {
            return false;
        }
        if !all_distinct_accounts(&self.refunded_participants) {
            return false;
        }
        let mut i: usize = 0;
        while i < self.refunded_participants.len()
            invariant
                i <= self.refunded_participants@.len(),
                forall|k: int|
                    0 <= k < i ==> self.participants@.contains(
                        #[trigger] self.refunded_participants@[k],
                    ),
            decreases self.refunded_participants@.len() - i,
        {
            if !contains_account(&self.participants, self.refunded_participants[i]) {
                return false;
            }
            i = i + 1;
        }
        let no_payouts = self.tournament_payouts.len() == 0 && self.match_payout_percentages.len()
            == 0;
        match self.phase {
            TournamentPhase::Registration => no_payouts && self.paid_match_ids.len() == 0
                && !self.operator_fee_withdrawn && self.refunded_participants.len() == 0,
            TournamentPhase::Playing => self.check_payouts_valid() && self.paid_match_ids.len()
                == 0 && !self.operator_fee_withdrawn && self.refunded_participants.len() == 0,
            TournamentPhase::Finalized => self.check_payouts_valid()
                && self.refunded_participants.len() == 0,
            TournamentPhase::Cancelled => no_payouts && self.paid_match_ids.len() == 0
                && !self.operator_fee_withdrawn,
        }
    }

    /// Whether the payout sequences look as they must from the moment
    /// play starts.
    fn check_payouts_valid(&self) -> (r: bool)
        ensures
            r == self.payouts_valid(),
    {
        is_valid_payout_seq(&self.tournament_payouts, 20) && self.tournament_payouts.len()
            <= self.current_players as usize && is_valid_payout_seq(
            &self.match_payout_percentages,
            8,
        ) && self.current_players >= 1
    }
}

/// Whether `player` is a registered participant of the tournament.
pub fn is_participant(tournament_state: &TournamentState, player: &AccountId) -> (r: bool)
    ensures
        r == tournament_state.participants@.contains(*player),
{
    contains_account(&tournament_state.participants, *player)
}

/// Whether `id` is already in the paid-match ledger.
pub fn is_match_paid(tournament_state: &TournamentState, id: u32) -> (r: bool)
    ensures
        r == tournament_state.paid_match_ids@.contains(id),
{
    let v = &tournament_state.paid_match_ids;
    let mut i: usize = 0;
    while i < v.len()
        invariant
            i <= v@.len(),
            v@ == tournament_state.paid_match_ids@,
            forall|j: int| 0 <= j < i ==> v@[j] != id,
        decreases v@.len() - i,
    {
        if v[i] == id {
            proof {
                assert(v@.contains(id)) by {
                    assert(v@[i as int] == id);
                }
            }
            return true;
        }
        i = i + 1;
    }
    false
}

} // verus!
