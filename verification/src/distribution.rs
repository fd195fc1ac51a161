//! Winner resolution: mapping an ordered winner list to payout transfers.
//!
//! Given a pool, an ordered sequence of basis-point payout percentages and
//! a winner list, resolution walks the list with a running position
//! counter. A single winner at an in-range position receives that
//! position's slice of the pool; one beyond the sequence receives nothing
//! and the counter still advances. A tied group consuming `k` positions
//! receives the combined slice of those positions, split evenly with the
//! last player absorbing the integer-division remainder, so the combined
//! amount is distributed exactly. Resolution fails on the first malformed
//! entry, zero share where a positive one is owed, or winner without a
//! transfer destination; on success the sum of all transfers never exceeds
//! the slice of the pool that the consumed positions cover.

use vstd::prelude::*;

use crate::account_id::AccountId;
use crate::account_id::contains_account;
use crate::arith::calculate_percentage_amount;
use crate::arith::lemma_pct_amount_full;
use crate::arith::lemma_pct_amount_le_pool;
use crate::arith::lemma_pct_amount_monotone;
use crate::arith::lemma_pct_amount_nonneg;
use crate::arith::lemma_pct_amount_subadditive;
use crate::arith::pct_amount;
use crate::errors::ErrorCode;
use crate::winner::Winner;
use crate::winner::consumed_total;
use crate::winner::lemma_consumed_total_nonneg;
use crate::winner::lemma_consumed_total_skip;
use crate::winner::winner_consumed;

verus! {

/// One value movement out of the vault that the host must perform.
#[derive(Clone, Copy, PartialEq, Eq, Structural, Debug)]
pub struct Transfer {
    /// Destination account.
    pub to: AccountId,
    /// Amount in base units.
    pub amount: u128,
}

/// The mathematical image of a transfer.
pub struct Payout {
    /// Destination account.
    pub to: AccountId,
    /// Amount as an unbounded integer.
    pub amount: int,
}

/// The transfers a resolution produced, with their checked total.
pub struct PayoutBatch {
    /// Transfers in resolution order.
    pub transfers: Vec<Transfer>,
    /// Sum of all transfer amounts.
    pub total_distributed: u128,
}

/// The payouts that a transfer list stands for.
pub open spec fn payouts_of(ts: Seq<Transfer>) -> Seq<Payout> {
    ts.map_values(|t: Transfer| Payout { to: t.to, amount: t.amount as int })
}

/// Sum of the amounts of a payout sequence.
pub open spec fn sum_payouts(ps: Seq<Payout>) -> int
    decreases ps.len(),
{
    if ps.len() == 0 {
        0
    } else {
        ps[0].amount + sum_payouts(ps.drop_first())
    }
}

/// Sum splits over concatenation.
pub proof fn lemma_sum_payouts_concat(a: Seq<Payout>, b: Seq<Payout>)
    ensures
        sum_payouts(a + b) == sum_payouts(a) + sum_payouts(b),
    decreases a.len(),
{
    if a.len() == 0 {
        assert(a + b =~= b);
    } else {
        assert((a + b).drop_first() =~= a.drop_first() + b);
        lemma_sum_payouts_concat(a.drop_first(), b);
    }
}

/// The percentage at position `i`: positions beyond the sequence
/// contribute nothing.
pub open spec fn entry_pct(pcts: Seq<u16>, i: int) -> int {
    if 0 <= i < pcts.len() {
        pcts[i] as int
    } else {
        0
    }
}

/// Combined percentage of the `k` positions starting at `pos`.
pub open spec fn window_pct(pcts: Seq<u16>, pos: int, k: int) -> int
    decreases k,
{
    if k <= 0 {
        0
    } else {
        window_pct(pcts, pos, k - 1) + entry_pct(pcts, pos + k - 1)
    }
}

/// The percentage of the whole payout sequence.
pub open spec fn sum_pct(pcts: Seq<u16>) -> int {
    window_pct(pcts, 0, pcts.len() as int)
}

/// A window of percentages is never negative.
pub proof fn lemma_window_pct_nonneg(pcts: Seq<u16>, pos: int, k: int)
    ensures
        window_pct(pcts, pos, k) >= 0,
    decreases k,
{
    if k > 0 {
        lemma_window_pct_nonneg(pcts, pos, k - 1);
    }
}

/// Adjacent windows concatenate.
pub proof fn lemma_window_pct_concat(pcts: Seq<u16>, pos: int, a: int, b: int)
    requires
        a >= 0,
        b >= 0,
    ensures
        window_pct(pcts, pos, a) + window_pct(pcts, pos + a, b) == window_pct(pcts, pos, a + b),
    decreases b,
{
    if b > 0 {
        lemma_window_pct_concat(pcts, pos, a, b - 1);
    }
}

/// A window that starts beyond the sequence covers nothing.
pub proof fn lemma_window_pct_beyond(pcts: Seq<u16>, pos: int, k: int)
    requires
        pos >= pcts.len(),
    ensures
        window_pct(pcts, pos, k) == 0,
    decreases k,
{
    if k > 0 {
        lemma_window_pct_beyond(pcts, pos, k - 1);
    }
}

/// A window anchored at the start never exceeds the whole sequence's sum.
pub proof fn lemma_window_pct_le_sum(pcts: Seq<u16>, k: int)
    requires
        k >= 0,
    ensures
        window_pct(pcts, 0, k) <= sum_pct(pcts),
{
    let n = pcts.len() as int;
    if k <= n {
        lemma_window_pct_concat(pcts, 0, k, n - k);
        lemma_window_pct_nonneg(pcts, k, n - k);
    } else {
        lemma_window_pct_concat(pcts, 0, n, k - n);
        lemma_window_pct_beyond(pcts, n, k - n);
    }
}

/// A window never exceeds the whole sequence's sum, wherever it starts.
pub proof fn lemma_window_pct_le_sum_anywhere(pcts: Seq<u16>, pos: int, k: int)
    requires
        pos >= 0,
        k >= 0,
    ensures
        window_pct(pcts, pos, k) <= sum_pct(pcts),
{
    lemma_window_pct_concat(pcts, 0, pos, k);
    lemma_window_pct_nonneg(pcts, 0, pos);
    lemma_window_pct_le_sum(pcts, pos + k);
}

/// One position's percentage never exceeds the whole sequence's sum.
pub proof fn lemma_entry_pct_le_sum(pcts: Seq<u16>, j: int)
    requires
        0 <= j < pcts.len(),
    ensures
        entry_pct(pcts, j) <= sum_pct(pcts),
{
    assert(window_pct(pcts, j, 0) == 0);
    assert(window_pct(pcts, j, 1) == entry_pct(pcts, j));
    lemma_window_pct_concat(pcts, 0, j, 1);
    lemma_window_pct_nonneg(pcts, 0, j);
    lemma_window_pct_le_sum(pcts, j + 1);
}

/// Appending one transfer appends its payout image.
pub proof fn lemma_payouts_of_push(ts: Seq<Transfer>, t: Transfer)
    ensures
        payouts_of(ts.push(t)) == payouts_of(ts).push(Payout { to: t.to, amount: t.amount as int }),
{
    assert(payouts_of(ts.push(t)) =~= payouts_of(ts).push(
        Payout { to: t.to, amount: t.amount as int },
    ));
}

/// Appending one payout adds its amount to the sum.
pub proof fn lemma_sum_payouts_push(ps: Seq<Payout>, p: Payout)
    ensures
        sum_payouts(ps.push(p)) == sum_payouts(ps) + p.amount,
{
    assert(ps.push(p) =~= ps + seq![p]);
    lemma_sum_payouts_concat(ps, seq![p]);
    assert(seq![p].drop_first() =~= Seq::<Payout>::empty());
    assert(sum_payouts(Seq::<Payout>::empty()) == 0);
    assert(sum_payouts(seq![p]) == p.amount);
}

/// The share of group member `i` out of `n` members splitting `combined`:
/// everyone receives the floor of the even split, and the last member
/// absorbs the remainder.
pub open spec fn group_share(combined: int, n: int, i: int) -> int {
    if i == n - 1 {
        combined - (n - 1) * (combined / n)
    } else {
        combined / n
    }
}

/// Resolution of the members of one tied group, from member `i` on:
/// each member's share must be positive and each member must have a
/// transfer destination among `accounts`.
pub open spec fn resolve_group_players(
    players: Seq<AccountId>,
    combined: int,
    i: int,
    accounts: Seq<AccountId>,
) -> Result<Seq<Payout>, ErrorCode>
    decreases players.len() - i,
{
    let n = players.len() as int;
    if i < 0 || i >= n {
        Ok(Seq::empty())
    } else {
        let share = group_share(combined, n, i);
        if share == 0 {
            Err(ErrorCode::NoMatchRewards)
        } else if !accounts.contains(players[i]) {
            Err(ErrorCode::MissingWinnerAccount)
        } else {
            match resolve_group_players(players, combined, i + 1, accounts) {
                Ok(rest) => Ok(seq![Payout { to: players[i], amount: share }] + rest),
                Err(e) => Err(e),
            }
        }
    }
}

/// Resolution of one winner entry at position `pos`. A single winner at
/// an in-range position receives that position's slice even when it
/// rounds to zero; only a group member's share must be positive.
pub open spec fn resolve_one(
    pool: int,
    pcts: Seq<u16>,
    pos: int,
    w: Winner,
    accounts: Seq<AccountId>,
) -> Result<Seq<Payout>, ErrorCode> {
    match w {
        Winner::Individual(player) => {
            if pos < pcts.len() {
                let amount = pct_amount(pool, entry_pct(pcts, pos));
                if !accounts.contains(player) {
                    Err(ErrorCode::MissingWinnerAccount)
                } else {
                    Ok(seq![Payout { to: player, amount }])
                }
            } else {
                Ok(Seq::empty())
            }
        },
        Winner::Group(players, positions_consumed) => {
            if players@.len() == 0 {
                Err(ErrorCode::InvalidWinnerCount)
            } else if positions_consumed == 0 {
                Err(ErrorCode::InvalidWinnerCount)
            } else {
                let combined = pct_amount(pool, window_pct(pcts, pos, positions_consumed as int));
                resolve_group_players(players@, combined, 0, accounts)
            }
        },
    }
}

/// Sequential resolution of a winner list from position `pos`: the first
/// failing entry aborts the whole resolution.
pub open spec fn resolve_winners(
    pool: int,
    pcts: Seq<u16>,
    pos: int,
    ws: Seq<Winner>,
    accounts: Seq<AccountId>,
) -> Result<Seq<Payout>, ErrorCode>
    decreases ws.len(),
{
    if ws.len() == 0 {
        Ok(Seq::empty())
    } else {
        match resolve_one(pool, pcts, pos, ws[0], accounts) {
            Err(e) => Err(e),
            Ok(first) => match resolve_winners(
                pool,
                pcts,
                pos + winner_consumed(ws[0]),
                ws.drop_first(),
                accounts,
            ) {
                Err(e) => Err(e),
                Ok(rest) => Ok(first + rest),
            },
        }
    }
}

/// What a resolved group hands out, from member `i` on: exactly the
/// combined amount minus the `i` even shares already paid, one payout per
/// remaining member.
pub proof fn lemma_group_players_sum(
    players: Seq<AccountId>,
    combined: int,
    i: int,
    accounts: Seq<AccountId>,
    ps: Seq<Payout>,
)
    requires
        combined >= 0,
        0 <= i <= players.len(),
        resolve_group_players(players, combined, i, accounts) == Ok::<Seq<Payout>, ErrorCode>(ps),
    ensures
        ps.len() == players.len() - i,
        sum_payouts(ps) == if i < players.len() {
            combined - i * (combined / players.len() as int)
        } else {
            0
        },
        forall|j: int| 0 <= j < ps.len() ==> ps[j].amount >= 0,
    decreases players.len() - i,
{
    let n = players.len() as int;
    if i < n {
        let share = group_share(combined, n, i);
        let rest = resolve_group_players(players, combined, i + 1, accounts)->Ok_0;
        lemma_group_players_sum(players, combined, i + 1, accounts, rest);
        let head = seq![Payout { to: players[i], amount: share }];
        lemma_sum_payouts_concat(head, rest);
        assert(ps =~= head + rest);
        assert(sum_payouts(head) == share + sum_payouts(head.drop_first()));
        assert(head.drop_first() =~= Seq::<Payout>::empty());
        vstd::arithmetic::div_mod::lemma_fundamental_div_mod(combined, n);
        if i + 1 < n {
            assert((i + 1) * (combined / n) == i * (combined / n) + combined / n)
                by (nonlinear_arith);
        } else {
            assert(i == n - 1);
        }
        assert(forall|j: int| 1 <= j < ps.len() ==> ps[j] == rest[j - 1]);
        assert(share >= 0) by {
            assert(combined / n >= 0) by (nonlinear_arith)
                requires
                    combined >= 0,
                    n > 0,
            ;
            if i == n - 1 {
                assert((n - 1) * (combined / n) + combined / n == n * (combined / n))
                    by (nonlinear_arith);
                assert(n * (combined / n) <= combined);
            }
        }
    }
}

/// Group-split exactness: a tied group that resolves successfully
/// receives exactly its combined amount, one payout per member, in
/// member order — the even split with the last member absorbing the
/// remainder neither loses nor creates a unit.
pub proof fn lemma_group_split_exact(
    players: Seq<AccountId>,
    combined: int,
    accounts: Seq<AccountId>,
    payouts: Seq<Payout>,
)
    requires
        combined >= 0,
        players.len() >= 1,
        resolve_group_players(players, combined, 0, accounts) == Ok::<Seq<Payout>, ErrorCode>(
            payouts,
        ),
    ensures
        payouts.len() == players.len(),
        sum_payouts(payouts) == combined,
{
    lemma_group_players_sum(players, combined, 0, accounts, payouts);
    assert(0 * (combined / players.len() as int) == 0) by (nonlinear_arith);
}

/// What one resolved entry hands out: never more than the slice of the
/// pool that its positions cover, and exactly that slice for a group.
pub proof fn lemma_resolve_one_sum(
    pool: int,
    pcts: Seq<u16>,
    pos: int,
    w: Winner,
    accounts: Seq<AccountId>,
    ps: Seq<Payout>,
)
    requires
        pool >= 0,
        pos >= 0,
        resolve_one(pool, pcts, pos, w, accounts) == Ok::<Seq<Payout>, ErrorCode>(ps),
    ensures
        sum_payouts(ps) <= pct_amount(pool, window_pct(pcts, pos, winner_consumed(w))),
        sum_payouts(ps) >= 0,
        forall|j: int| 0 <= j < ps.len() ==> ps[j].amount >= 0,
{
    lemma_window_pct_nonneg(pcts, pos, winner_consumed(w));
    lemma_pct_amount_nonneg(pool, window_pct(pcts, pos, winner_consumed(w)));
    match w {
        Winner::Individual(player) => {
            if pos < pcts.len() {
                assert(window_pct(pcts, pos, 0) == 0);
                assert(window_pct(pcts, pos, 1) == entry_pct(pcts, pos));
                let amount = pct_amount(pool, entry_pct(pcts, pos));
                lemma_pct_amount_nonneg(pool, entry_pct(pcts, pos));
                assert(ps =~= seq![Payout { to: player, amount }]);
                assert(ps.drop_first() =~= Seq::<Payout>::empty());
                assert(sum_payouts(ps.drop_first()) == 0);
                assert(sum_payouts(ps) == amount);
            } else {
                assert(ps =~= Seq::<Payout>::empty());
                assert(sum_payouts(ps) == 0);
            }
        },
        Winner::Group(players, positions_consumed) => {
            let combined = pct_amount(pool, window_pct(pcts, pos, positions_consumed as int));
            lemma_group_players_sum(players@, combined, 0, accounts, ps);
            assert(0 * (combined / players@.len() as int) == 0) by (nonlinear_arith);
        },
    }
}

/// Conservation: whatever a successful resolution hands out in total is at
/// most the slice of the pool that the consumed positions cover.
pub proof fn lemma_resolve_conserves(
    pool: int,
    pcts: Seq<u16>,
    pos: int,
    ws: Seq<Winner>,
    accounts: Seq<AccountId>,
    ps: Seq<Payout>,
)
    requires
        pool >= 0,
        pos >= 0,
        resolve_winners(pool, pcts, pos, ws, accounts) == Ok::<Seq<Payout>, ErrorCode>(
            ps,
        ),
    ensures
        sum_payouts(ps) <= pct_amount(pool, window_pct(pcts, pos, consumed_total(ws))),
        sum_payouts(ps) >= 0,
        forall|j: int| 0 <= j < ps.len() ==> ps[j].amount >= 0,
    decreases ws.len(),
{
    lemma_consumed_total_nonneg(ws);
    lemma_window_pct_nonneg(pcts, pos, consumed_total(ws));
    lemma_pct_amount_nonneg(pool, window_pct(pcts, pos, consumed_total(ws)));
    if ws.len() > 0 {
        let c0 = winner_consumed(ws[0]);
        let first = resolve_one(pool, pcts, pos, ws[0], accounts)->Ok_0;
        let rest = resolve_winners(
            pool,
            pcts,
            pos + c0,
            ws.drop_first(),
            accounts,
        )->Ok_0;
        assert(ps == first + rest);
        lemma_resolve_one_sum(pool, pcts, pos, ws[0], accounts, first);
        lemma_resolve_conserves(pool, pcts, pos + c0, ws.drop_first(), accounts, rest);
        lemma_sum_payouts_concat(first, rest);
        lemma_consumed_total_nonneg(ws.drop_first());
        lemma_window_pct_nonneg(pcts, pos, c0);
        lemma_window_pct_nonneg(pcts, pos + c0, consumed_total(ws.drop_first()));
        lemma_pct_amount_subadditive(
            pool,
            window_pct(pcts, pos, c0),
            window_pct(pcts, pos + c0, consumed_total(ws.drop_first())),
        );
        lemma_window_pct_concat(pcts, pos, c0, consumed_total(ws.drop_first()));
        assert(forall|j: int|
            0 <= j < ps.len() ==> ps[j] == (if j < first.len() {
                first[j]
            } else {
                rest[j - first.len()]
            }));
    }
}

/// Walks a winner list and produces the transfers it resolves to, exactly
/// as `resolve_winners` states, with the running total checked against the
/// pool. The first failing entry aborts with its error and nothing is
/// handed out. The percentage sequence must be a validated payout
/// sequence summing to 10000 basis points, the pool must leave room for
/// basis-point scaling in 128 bits, and the list's total position count
/// must fit the machine word, since the position counter tracks it.
#[verifier::loop_isolation(false)]
pub fn distribute_prizes(
    pool: u128,
    pcts: &Vec<u16>,
    winners: &Vec<Winner>,
    accounts: &Vec<AccountId>,
) -> (r: Result<PayoutBatch, ErrorCode>)
    requires
        pool as int * 10000 <= u128::MAX,
        sum_pct(pcts@) == 10000,
        consumed_total(winners@) <= usize::MAX as int,
    ensures
        match r {
            Ok(batch) => resolve_winners(pool as int, pcts@, 0, winners@, accounts@)
                == Ok::<Seq<Payout>, ErrorCode>(payouts_of(batch.transfers@))
                && batch.total_distributed as int == sum_payouts(payouts_of(batch.transfers@))
                && batch.total_distributed <= pool,
            Err(e) => resolve_winners(pool as int, pcts@, 0, winners@, accounts@)
                == Err::<Seq<Payout>, ErrorCode>(e),
        },
{
    let ghost ws = winners@;
    let ghost ppool = pool as int;
    let ghost full_res = resolve_winners(ppool, pcts@, 0, ws, accounts@);
    let mut transfers: Vec<Transfer> = Vec::new();
    let mut total_distributed: u128 = 0;
    let mut pos: usize = 0;
    let mut i: usize = 0;
    proof {
        assert(ws.skip(0) =~= ws);
        assert(payouts_of(transfers@) =~= Seq::<Payout>::empty());
        assert(window_pct(pcts@, 0, 0) == 0);
        assert(pct_amount(ppool, 0) == 0) by (nonlinear_arith);
        if full_res is Ok {
            assert(payouts_of(transfers@) + full_res->Ok_0 =~= full_res->Ok_0);
        }
    }
    while i < winners.len()
        invariant
            i <= ws.len(),
            pos as int + consumed_total(ws.skip(i as int)) == consumed_total(ws),
            total_distributed as int == sum_payouts(payouts_of(transfers@)),
            total_distributed as int <= pct_amount(ppool, window_pct(pcts@, 0, pos as int)),
            full_res == match resolve_winners(
                ppool,
                pcts@,
                pos as int,
                ws.skip(i as int),
                accounts@,
            ) {
                Ok(rest) => Ok::<Seq<Payout>, ErrorCode>(payouts_of(transfers@) + rest),
                Err(e) => Err::<Seq<Payout>, ErrorCode>(e),
            },
        decreases ws.len() - i,
    {
        proof {
            lemma_consumed_total_skip(ws, i as int);
            lemma_consumed_total_nonneg(ws.skip(i as int + 1));
            assert(ws.skip(i as int)[0] == ws[i as int]);
            assert(ws.skip(i as int).drop_first() =~= ws.skip(i as int + 1));
        }
        let ghost c_i = winner_consumed(ws[i as int]);
        let ghost prev_payouts = payouts_of(transfers@);
        let ghost step_res = resolve_one(ppool, pcts@, pos as int, ws[i as int], accounts@);
        let ghost rest_res = resolve_winners(
            ppool,
            pcts@,
            pos as int + c_i,
            ws.skip(i as int + 1),
            accounts@,
        );
        let ghost total_before = total_distributed as int;
        proof {
            lemma_window_pct_nonneg(pcts@, pos as int, c_i);
            lemma_window_pct_nonneg(pcts@, 0, pos as int);
            lemma_pct_amount_subadditive(
                ppool,
                window_pct(pcts@, 0, pos as int),
                window_pct(pcts@, pos as int, c_i),
            );
            lemma_window_pct_concat(pcts@, 0, pos as int, c_i);
            lemma_window_pct_le_sum(pcts@, pos as int + c_i);
            lemma_pct_amount_monotone(ppool, window_pct(pcts@, 0, pos as int + c_i), 10000);
            lemma_pct_amount_full(ppool);
        }
        match &winners[i] {
            Winner::Individual(player) => {
                if pos < pcts.len() {
                    let pct = pcts[pos];
                    proof {
                        lemma_entry_pct_le_sum(pcts@, pos as int);
                        assert(ppool * pct as int <= ppool * 10000) by (nonlinear_arith)
                            requires
                                ppool >= 0,
                                0 <= pct <= 10000,
                        ;
                        lemma_pct_amount_le_pool(ppool, pct as int);
                        lemma_pct_amount_nonneg(ppool, pct as int);
                    }
                    let amount = match calculate_percentage_amount(pool, pct) {
                        Ok(a) => a,
                        Err(e) => {
                            return Err(e);
                        },
                    };
                    if !contains_account(accounts, *player) {
                        return Err(ErrorCode::MissingWinnerAccount);
                    }
                    let t = Transfer { to: *player, amount };
                    let ghost tseq = transfers@;
                    transfers.push(t);
                    proof {
                        lemma_payouts_of_push(tseq, t);
                        let p = Payout { to: t.to, amount: t.amount as int };
                        lemma_sum_payouts_push(prev_payouts, p);
                        assert(step_res == Ok::<Seq<Payout>, ErrorCode>(seq![p]));
                        assert(prev_payouts.push(p) =~= prev_payouts + seq![p]);
                        if rest_res is Ok {
                            assert((prev_payouts + seq![p]) + rest_res->Ok_0 =~= prev_payouts + (
                            seq![p] + rest_res->Ok_0));
                        }
                        assert(window_pct(pcts@, pos as int, 0) == 0);
                        assert(window_pct(pcts@, pos as int, 1) == entry_pct(pcts@, pos as int));
                    }
                    total_distributed = total_distributed + amount;
                } else {
                    proof {
                        assert(step_res == Ok::<Seq<Payout>, ErrorCode>(Seq::empty()));
                        if rest_res is Ok {
                            assert(prev_payouts + (Seq::empty() + rest_res->Ok_0) =~= prev_payouts
                                + rest_res->Ok_0);
                        }
                        assert(window_pct(pcts@, pos as int, 0) == 0);
                        assert(window_pct(pcts@, pos as int, 1) == entry_pct(pcts@, pos as int));
                    }
                }
                pos = pos + 1;
            },
            Winner::Group(players, positions_consumed) => {
                if players.len() == 0 {
                    return Err(ErrorCode::InvalidWinnerCount);
                }
                if *positions_consumed == 0 {
                    return Err(ErrorCode::InvalidWinnerCount);
                }
                let k = *positions_consumed;
                let end: usize = pos + k as usize;
                let mut combined_pct: u32 = 0;
                let mut j: usize = pos;
                proof {
                    assert(window_pct(pcts@, pos as int, 0) == 0);
                }
                while j < end
                    invariant
                        pos <= j <= end,
                        combined_pct as int == window_pct(pcts@, pos as int, j - pos),
                        combined_pct <= 10000,
                    decreases end - j,
                {
                    proof {
                        lemma_window_pct_le_sum_anywhere(pcts@, pos as int, j - pos + 1);
                        lemma_window_pct_nonneg(pcts@, pos as int, j - pos);
                    }
                    if j < pcts.len() {
                        combined_pct = combined_pct + pcts[j] as u32;
                    }
                    j = j + 1;
                }
                let combined_u16: u16 = combined_pct as u16;
                proof {
                    assert(ppool * combined_u16 as int <= ppool * 10000) by (nonlinear_arith)
                        requires
                            ppool >= 0,
                            0 <= combined_u16 <= 10000,
                    ;
                    lemma_pct_amount_le_pool(ppool, combined_u16 as int);
                    lemma_pct_amount_nonneg(ppool, combined_u16 as int);
                }
                let combined_pool_amount = match calculate_percentage_amount(pool, combined_u16) {
                    Ok(a) => a,
                    Err(e) => {
                        return Err(e);
                    },
                };
                let ghost combined = combined_pool_amount as int;
                let n: usize = players.len();
                let ghost n_int = players@.len() as int;
                let payout_per_player: u128 = combined_pool_amount / (n as u128);
                let ghost per = payout_per_player as int;
                proof {
                    assert(per == combined / n_int);
                    assert(per >= 0 && n_int * per <= combined && per * n_int <= combined)
                        by (nonlinear_arith)
                        requires
                            per == combined / n_int,
                            combined >= 0,
                            n_int > 0,
                    ;
                }
                if !(payout_per_player * (n as u128) <= combined_pool_amount) {
                    return Err(ErrorCode::CalculationOverflow);
                }
                proof {
                    // The pool slice this group consumes keeps the running
                    // total below the whole pool.
                    assert(combined == pct_amount(ppool, window_pct(pcts@, pos as int, c_i)));
                    assert(total_before + combined <= ppool);
                }
                let mut remaining_amount: u128 = combined_pool_amount;
                let mut p_idx: usize = 0;
                let ghost mut gp: Seq<Payout> = Seq::empty();
                proof {
                    assert(prev_payouts + gp =~= prev_payouts);
                    assert(0 * per == 0) by (nonlinear_arith);
                    if resolve_group_players(players@, combined, 0, accounts@) is Ok {
                        assert(gp + resolve_group_players(players@, combined, 0, accounts@)->Ok_0
                            =~= resolve_group_players(players@, combined, 0, accounts@)->Ok_0);
                    }
                }
                while p_idx < n
                    invariant
                        p_idx <= n,
                        remaining_amount as int == if p_idx < n {
                            combined - p_idx as int * per
                        } else {
                            0
                        },
                        remaining_amount <= combined_pool_amount,
                        payouts_of(transfers@) == prev_payouts + gp,
                        sum_payouts(gp) == combined - remaining_amount as int,
                        total_distributed as int == total_before + combined
                            - remaining_amount as int,
                        resolve_group_players(players@, combined, 0, accounts@) == match
                            resolve_group_players(players@, combined, p_idx as int, accounts@) {
                            Ok(rest) => Ok::<Seq<Payout>, ErrorCode>(gp + rest),
                            Err(e) => Err::<Seq<Payout>, ErrorCode>(e),
                        },
                    decreases n - p_idx,
                {
                    let is_last = p_idx == n - 1;
                    let amount_to_transfer: u128 = if is_last {
                        remaining_amount
                    } else {
                        payout_per_player
                    };
                    proof {
                        if !is_last {
                            assert((p_idx as int + 1) * per <= n_int * per) by (nonlinear_arith)
                                requires
                                    p_idx as int + 1 <= n_int,
                                    per >= 0,
                            ;
                            assert((p_idx as int + 1) * per == p_idx as int * per + per)
                                by (nonlinear_arith);
                        }
                        assert(amount_to_transfer as int == group_share(combined, n_int, p_idx as int));
                    }
                    if amount_to_transfer == 0 {
                        proof {
                            assert(resolve_group_players(players@, combined, p_idx as int, accounts@)
                                == Err::<Seq<Payout>, ErrorCode>(ErrorCode::NoMatchRewards));
                        }
                        return Err(ErrorCode::NoMatchRewards);
                    }
                    if !contains_account(accounts, players[p_idx]) {
                        return Err(ErrorCode::MissingWinnerAccount);
                    }
                    let t = Transfer { to: players[p_idx], amount: amount_to_transfer };
                    let ghost tseq = transfers@;
                    transfers.push(t);
                    let ghost p = Payout { to: t.to, amount: t.amount as int };
                    proof {
                        lemma_payouts_of_push(tseq, t);
                        lemma_sum_payouts_push(gp, p);
                        assert((prev_payouts + gp).push(p) =~= prev_payouts + gp.push(p));
                        let grest = resolve_group_players(
                            players@,
                            combined,
                            p_idx as int + 1,
                            accounts@,
                        );
                        if grest is Ok {
                            assert(gp + (seq![p] + grest->Ok_0) =~= gp.push(p) + grest->Ok_0);
                        }
                        gp = gp.push(p);
                    }
                    remaining_amount = remaining_amount - amount_to_transfer;
                    total_distributed = total_distributed + amount_to_transfer;
                    p_idx = p_idx + 1;
                }
                proof {
                    lemma_sum_payouts_concat(prev_payouts, gp);
                    assert(resolve_group_players(players@, combined, n_int, accounts@)
                        == Ok::<Seq<Payout>, ErrorCode>(Seq::empty()));
                    assert(gp + Seq::<Payout>::empty() =~= gp);
                    assert(step_res == Ok::<Seq<Payout>, ErrorCode>(gp));
                    if rest_res is Ok {
                        assert((prev_payouts + gp) + rest_res->Ok_0 =~= prev_payouts + (gp
                            + rest_res->Ok_0));
                    }
                }
                pos = end;
            },
        }
        i = i + 1;
    }
    proof {
        assert(ws.skip(ws.len() as int) =~= Seq::<Winner>::empty());
        assert(payouts_of(transfers@) + Seq::<Payout>::empty() =~= payouts_of(transfers@));
        lemma_window_pct_nonneg(pcts@, 0, pos as int);
        lemma_window_pct_le_sum(pcts@, pos as int);
        lemma_pct_amount_monotone(ppool, window_pct(pcts@, 0, pos as int), 10000);
        lemma_pct_amount_full(ppool);
    }
    Ok(PayoutBatch { transfers, total_distributed })
}

} // verus!
