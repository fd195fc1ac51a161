//! Winner entries and their position accounting.
//!
//! A caller hands each payout operation an ordered list of winner entries:
//! either a single ranked player or a group of tied players that jointly
//! consumes a number of ranked positions. Processing is strictly sequential
//! over a running position counter, so the only arithmetic a list needs
//! before resolution is how many positions it consumes in total.

use vstd::prelude::*;

use crate::account_id::AccountId;

verus! {

/// One entry of an ordered winner list.
#[derive(Clone, Debug)]
pub enum Winner {
    /// A single player taking one ranked position.
    Individual(AccountId),
    /// Tied players sharing the combined payout of the given number of
    /// ranked positions.
    Group(Vec<AccountId>, u8),
}

/// How many ranked positions one entry consumes.
pub open spec fn winner_consumed(w: Winner) -> int {
    match w {
        Winner::Individual(_) => 1,
        Winner::Group(_, positions_consumed) => positions_consumed as int,
    }
}

/// The players named by one entry, in order.
pub open spec fn winner_players(w: Winner) -> Seq<AccountId> {
    match w {
        Winner::Individual(player) => seq![player],
        Winner::Group(players, _) => players@,
    }
}

/// How many ranked positions a whole list consumes.
pub open spec fn consumed_total(ws: Seq<Winner>) -> int
    decreases ws.len(),
{
    if ws.len() == 0 {
        0
    } else {
        winner_consumed(ws[0]) + consumed_total(ws.drop_first())
    }
}

/// A list never consumes a negative number of positions.
pub proof fn lemma_consumed_total_nonneg(ws: Seq<Winner>)
    ensures
        consumed_total(ws) >= 0,
    decreases ws.len(),
{
    if ws.len() > 0 {
        lemma_consumed_total_nonneg(ws.drop_first());
    }
}

/// Splitting a list at entry `i` splits its position count there.
pub proof fn lemma_consumed_total_skip(ws: Seq<Winner>, i: int)
    requires
        0 <= i < ws.len(),
    ensures
        consumed_total(ws.skip(i)) == winner_consumed(ws[i]) + consumed_total(ws.skip(i + 1)),
{
    assert(ws.skip(i).drop_first() =~= ws.skip(i + 1));
    assert(ws.skip(i)[0] == ws[i]);
}

/// The flattened list of all named players, in list order.
pub open spec fn flatten_winners(ws: Seq<Winner>) -> Seq<AccountId>
    decreases ws.len(),
{
    if ws.len() == 0 {
        Seq::empty()
    } else {
        winner_players(ws[0]) + flatten_winners(ws.drop_first())
    }
}

/// Unfolding `flatten_winners` at entry `i` of a list.
pub proof fn lemma_flatten_winners_skip(ws: Seq<Winner>, i: int)
    requires
        0 <= i < ws.len(),
    ensures
        flatten_winners(ws.skip(i)) == winner_players(ws[i]) + flatten_winners(ws.skip(i + 1)),
{
    assert(ws.skip(i).drop_first() =~= ws.skip(i + 1));
    assert(ws.skip(i)[0] == ws[i]);
}

/// Flattens a winner list to the players it names, in order.
pub fn flatten(winners: &Vec<Winner>) -> (r: Vec<AccountId>)
    ensures
        r@ == flatten_winners(winners@),
{
    let ghost ws = winners@;
    let mut r: Vec<AccountId> = Vec::new();
    let mut i: usize = 0;
    proof {
        assert(ws.skip(0) =~= ws);
        assert(r@ + flatten_winners(ws) =~= flatten_winners(ws));
    }
    while i < winners.len()
        invariant
            i <= ws.len(),
            ws == winners@,
            flatten_winners(ws) == r@ + flatten_winners(ws.skip(i as int)),
        decreases ws.len() - i,
    {
        proof {
            lemma_flatten_winners_skip(ws, i as int);
        }
        let ghost prev = r@;
        let ghost rest = flatten_winners(ws.skip(i as int + 1));
        match &winners[i] {
            Winner::Individual(player) => {
                r.push(*player);
                proof {
                    assert(r@ =~= prev + winner_players(ws[i as int]));
                }
            },
            Winner::Group(players, _) => {
                let mut j: usize = 0;
                proof {
                    assert(prev + players@.take(0) =~= prev);
                }
                while j < players.len()
                    invariant
                        j <= players@.len(),
                        r@ == prev + players@.take(j as int),
                    decreases players@.len() - j,
                {
                    r.push(players[j]);
                    proof {
                        assert(prev + players@.take(j as int + 1) =~= (prev + players@.take(
                            j as int,
                        )).push(players@[j as int]));
                    }
                    j = j + 1;
                }
                proof {
                    assert(players@.take(players@.len() as int) =~= players@);
                    assert(r@ =~= prev + winner_players(ws[i as int]));
                }
            },
        }
        proof {
            assert((prev + winner_players(ws[i as int])) + rest =~= prev + (winner_players(
                ws[i as int],
            ) + rest));
        }
        i = i + 1;
    }
    proof {
        assert(ws.skip(ws.len() as int) =~= Seq::<Winner>::empty());
        assert(r@ + flatten_winners(ws.skip(ws.len() as int)) =~= r@);
    }
    r
}

/// Total positions a list consumes, if that fits the machine word;
/// `None` exactly when it does not (the host must refuse such a list,
/// since the position counter could not track it).
pub fn winners_total_positions(winners: &Vec<Winner>) -> (r: Option<usize>)
    ensures
        match r {
            Some(n) => n as int == consumed_total(winners@),
            None => consumed_total(winners@) > usize::MAX,
        },
{
    let ghost ws = winners@;
    let mut acc: usize = 0;
    let mut i: usize = 0;
    proof {
        assert(ws.skip(0) =~= ws);
    }
    while i < winners.len()
        invariant
            i <= ws.len(),
            ws == winners@,
            consumed_total(ws) == acc + consumed_total(ws.skip(i as int)),
        decreases ws.len() - i,
    {
        proof {
            lemma_consumed_total_skip(ws, i as int);
            lemma_consumed_total_nonneg(ws.skip(i as int + 1));
        }
        let step: usize = match &winners[i] {
            Winner::Individual(_) => 1,
            Winner::Group(_, positions_consumed) => *positions_consumed as usize,
        };
        match acc.checked_add(step) {
            Some(next) => {
                acc = next;
            },
            None => {
                return None;
            },
        }
        i = i + 1;
    }
    proof {
        assert(ws.skip(ws.len() as int) =~= Seq::<Winner>::empty());
    }
    Some(acc)
}

} // verus!
