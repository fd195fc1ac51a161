use tournament::account_id::AccountId;
use tournament::distribution::Transfer;
use tournament::errors::ErrorCode;
use tournament::state::TournamentPhase;
use tournament::state::TournamentState;
use tournament::winner::Winner;

fn acct(n: u64) -> AccountId {
    AccountId { w0: n, w1: 0, w2: 0, w3: 0 }
}

const AUTH: u64 = 1;
const KEY: u64 = 900;

fn new_tournament(buy_in: u64, max_players: u8, match_size: u8, tp: u16, mp: u16, op: u16)
    -> TournamentState {
    let creators = vec![acct(AUTH)];
    let (state, _) = TournamentState::initialize_tournament(
        &creators,
        acct(AUTH),
        buy_in,
        max_players,
        match_size,
        tp,
        mp,
        op,
        acct(KEY),
        7,
    )
    .unwrap();
    state
}

/// Fee 1000, four players, splits 6000/2500/1500, tournament payouts
/// [10000], match payouts [6000, 4000], as far as `start`.
fn started_standard() -> TournamentState {
    let mut state = new_tournament(1000, 4, 4, 6000, 2500, 1500);
    for n in 10..14u64 {
        state.buy_in(acct(n), acct(AUTH), acct(KEY), 8).unwrap();
    }
    state
        .start_tournament(vec![10000], vec![6000, 4000], acct(AUTH), acct(KEY), 9)
        .unwrap();
    state
}

#[test]
fn single_winner_receives_sixty_percent_of_buy_ins() {
    let mut state = started_standard();
    let winners = vec![Winner::Individual(acct(10))];
    let accounts = vec![acct(10)];
    let (transfers, event) = state
        .finalize_tournament(winners, &accounts, acct(AUTH), acct(KEY), 10)
        .unwrap();
    assert_eq!(transfers, vec![Transfer { to: acct(10), amount: 2400 }]);
    assert!(matches!(state.phase, TournamentPhase::Finalized));
    assert!(state.check_well_formed());
    assert_eq!(event.winners, vec![acct(10)]);
    assert_eq!(event.total_prize_pool, 2400);
    assert_eq!(event.tournament, acct(KEY));
    assert_eq!(event.timestamp, 10);
}

#[test]
fn match_pool_splits_six_hundred_and_four_hundred() {
    let mut state = started_standard();
    let accounts = vec![acct(10), acct(11)];
    state
        .finalize_tournament(vec![Winner::Individual(acct(10))], &vec![acct(10)], acct(AUTH), acct(KEY), 10)
        .unwrap();
    let winners = vec![Winner::Individual(acct(10)), Winner::Individual(acct(11))];
    let (transfers, event) = state
        .distribute_match_rewards(5, winners, &accounts, acct(AUTH), acct(KEY), 11)
        .unwrap();
    assert_eq!(
        transfers,
        vec![
            Transfer { to: acct(10), amount: 600 },
            Transfer { to: acct(11), amount: 400 },
        ]
    );
    assert_eq!(state.paid_match_ids, vec![5]);
    assert!(state.check_well_formed());
    assert_eq!(event.match_id, 5);
    assert_eq!(event.winners, vec![acct(10), acct(11)]);
    assert_eq!(event.total_match_pool, 1000);
}

#[test]
fn same_match_id_is_paid_exactly_once() {
    let mut state = started_standard();
    let accounts = vec![acct(10), acct(11)];
    state
        .finalize_tournament(vec![Winner::Individual(acct(10))], &vec![acct(10)], acct(AUTH), acct(KEY), 10)
        .unwrap();
    let winners = || vec![Winner::Individual(acct(10)), Winner::Individual(acct(11))];
    state
        .distribute_match_rewards(5, winners(), &accounts, acct(AUTH), acct(KEY), 11)
        .unwrap();
    let repeat = state.distribute_match_rewards(5, winners(), &accounts, acct(AUTH), acct(KEY), 12);
    assert_eq!(repeat.unwrap_err(), ErrorCode::MatchAlreadyPaid);
    assert_eq!(state.paid_match_ids, vec![5]);
    let other = state.distribute_match_rewards(6, winners(), &accounts, acct(AUTH), acct(KEY), 13);
    assert!(other.is_ok());
    assert_eq!(state.paid_match_ids, vec![5, 6]);
}

#[test]
fn group_of_three_splits_hundred_as_33_33_34() {
    let mut state = new_tournament(50, 4, 4, 5000, 3500, 1500);
    for n in 10..14u64 {
        state.buy_in(acct(n), acct(AUTH), acct(KEY), 8).unwrap();
    }
    state
        .start_tournament(vec![10000], vec![10000], acct(AUTH), acct(KEY), 9)
        .unwrap();
    let winners = vec![Winner::Group(vec![acct(10), acct(11), acct(12)], 1)];
    let accounts = vec![acct(10), acct(11), acct(12)];
    let (transfers, event) = state
        .finalize_tournament(winners, &accounts, acct(AUTH), acct(KEY), 10)
        .unwrap();
    assert_eq!(
        transfers,
        vec![
            Transfer { to: acct(10), amount: 33 },
            Transfer { to: acct(11), amount: 33 },
            Transfer { to: acct(12), amount: 34 },
        ]
    );
    assert_eq!(event.total_prize_pool, 100);
}

#[test]
fn winner_beyond_payout_positions_receives_nothing() {
    let mut state = started_standard();
    let winners = vec![Winner::Individual(acct(10)), Winner::Individual(acct(11))];
    let accounts = vec![acct(10), acct(11)];
    let (transfers, event) = state
        .finalize_tournament(winners, &accounts, acct(AUTH), acct(KEY), 10)
        .unwrap();
    assert_eq!(transfers, vec![Transfer { to: acct(10), amount: 2400 }]);
    assert_eq!(event.winners, vec![acct(10), acct(11)]);
    assert_eq!(event.total_prize_pool, 2400);
}

#[test]
fn winner_without_account_fails() {
    let mut state = started_standard();
    let winners = vec![Winner::Individual(acct(10))];
    let accounts = vec![acct(11)];
    let r = state.finalize_tournament(winners, &accounts, acct(AUTH), acct(KEY), 10);
    assert_eq!(r.unwrap_err(), ErrorCode::MissingWinnerAccount);
    assert!(matches!(state.phase, TournamentPhase::Playing));
}

#[test]
fn unregistered_winner_fails() {
    let mut state = started_standard();
    let winners = vec![Winner::Individual(acct(77))];
    let accounts = vec![acct(77)];
    let r = state.finalize_tournament(winners, &accounts, acct(AUTH), acct(KEY), 10);
    assert_eq!(r.unwrap_err(), ErrorCode::WinnerNotParticipant);
}

#[test]
fn empty_winner_list_fails() {
    let mut state = started_standard();
    let r = state.finalize_tournament(vec![], &vec![], acct(AUTH), acct(KEY), 10);
    assert_eq!(r.unwrap_err(), ErrorCode::InvalidWinnerCount);
}

#[test]
fn empty_group_fails() {
    let mut state = started_standard();
    let winners = vec![Winner::Group(vec![], 1)];
    let r = state.finalize_tournament(winners, &vec![], acct(AUTH), acct(KEY), 10);
    assert_eq!(r.unwrap_err(), ErrorCode::InvalidWinnerCount);
}

#[test]
fn group_consuming_no_positions_fails() {
    let mut state = started_standard();
    let winners = vec![Winner::Group(vec![acct(10)], 0)];
    let r = state.finalize_tournament(winners, &vec![acct(10)], acct(AUTH), acct(KEY), 10);
    assert_eq!(r.unwrap_err(), ErrorCode::InvalidWinnerCount);
}

#[test]
fn default_identity_winner_fails_match_distribution() {
    let mut state = started_standard();
    state
        .finalize_tournament(vec![Winner::Individual(acct(10))], &vec![acct(10)], acct(AUTH), acct(KEY), 10)
        .unwrap();
    let zero = AccountId { w0: 0, w1: 0, w2: 0, w3: 0 };
    let winners = vec![Winner::Individual(zero)];
    let r = state.distribute_match_rewards(5, winners, &vec![zero], acct(AUTH), acct(KEY), 11);
    assert_eq!(r.unwrap_err(), ErrorCode::InvalidWinner);
}

#[test]
fn individual_match_amount_flooring_to_zero_is_paid_silently() {
    let mut state = new_tournament(10, 2, 2, 6000, 2500, 1500);
    state.buy_in(acct(10), acct(AUTH), acct(KEY), 8).unwrap();
    state.buy_in(acct(11), acct(AUTH), acct(KEY), 8).unwrap();
    state
        .start_tournament(vec![10000], vec![1000, 9000], acct(AUTH), acct(KEY), 9)
        .unwrap();
    state
        .finalize_tournament(vec![Winner::Individual(acct(10))], &vec![acct(10)], acct(AUTH), acct(KEY), 10)
        .unwrap();
    // The per-match pool is 5 units; the first position's slice floors to
    // zero and is transferred as such, exactly as at finalization.
    let winners = vec![Winner::Individual(acct(10)), Winner::Individual(acct(11))];
    let accounts = vec![acct(10), acct(11)];
    let (transfers, event) = state
        .distribute_match_rewards(5, winners, &accounts, acct(AUTH), acct(KEY), 11)
        .unwrap();
    assert_eq!(
        transfers,
        vec![
            Transfer { to: acct(10), amount: 0 },
            Transfer { to: acct(11), amount: 4 },
        ]
    );
    assert_eq!(event.total_match_pool, 4);
    assert_eq!(state.paid_match_ids, vec![5]);
}

#[test]
fn zero_match_pool_fails_with_no_match_rewards() {
    let mut state = new_tournament(1, 4, 2, 7000, 1500, 1500);
    state.buy_in(acct(10), acct(AUTH), acct(KEY), 8).unwrap();
    state.buy_in(acct(11), acct(AUTH), acct(KEY), 8).unwrap();
    state
        .start_tournament(vec![10000], vec![10000], acct(AUTH), acct(KEY), 9)
        .unwrap();
    state
        .finalize_tournament(vec![Winner::Individual(acct(10))], &vec![acct(10)], acct(AUTH), acct(KEY), 10)
        .unwrap();
    let winners = vec![Winner::Individual(acct(10))];
    let r = state.distribute_match_rewards(5, winners, &vec![acct(10)], acct(AUTH), acct(KEY), 11);
    assert_eq!(r.unwrap_err(), ErrorCode::NoMatchRewards);
    assert!(state.paid_match_ids.is_empty());
}

#[test]
fn zero_group_share_fails_with_no_match_rewards() {
    let mut state = new_tournament(1, 4, 4, 5000, 3500, 1500);
    for n in 10..14u64 {
        state.buy_in(acct(n), acct(AUTH), acct(KEY), 8).unwrap();
    }
    state
        .start_tournament(vec![10000], vec![10000], acct(AUTH), acct(KEY), 9)
        .unwrap();
    // The tournament pool is 2 units; split across three tied players the
    // even share rounds to zero.
    let winners = vec![Winner::Group(vec![acct(10), acct(11), acct(12)], 1)];
    let accounts = vec![acct(10), acct(11), acct(12)];
    let r = state.finalize_tournament(winners, &accounts, acct(AUTH), acct(KEY), 10);
    assert_eq!(r.unwrap_err(), ErrorCode::NoMatchRewards);
    assert!(matches!(state.phase, TournamentPhase::Playing));
}

#[test]
fn finalize_with_wrong_authority_fails() {
    let mut state = started_standard();
    let winners = vec![Winner::Individual(acct(10))];
    let r = state.finalize_tournament(winners, &vec![acct(10)], acct(99), acct(KEY), 10);
    assert_eq!(r.unwrap_err(), ErrorCode::UnauthorizedAuthority);
}

#[test]
fn group_spanning_two_positions_takes_their_combined_slice() {
    let mut state = new_tournament(1000, 4, 4, 6000, 2500, 1500);
    for n in 10..14u64 {
        state.buy_in(acct(n), acct(AUTH), acct(KEY), 8).unwrap();
    }
    state
        .start_tournament(vec![7000, 3000], vec![6000, 4000], acct(AUTH), acct(KEY), 9)
        .unwrap();
    // Pool 2400; positions one and two combine to the whole of it, split
    // between two tied players.
    let winners = vec![Winner::Group(vec![acct(10), acct(11)], 2)];
    let accounts = vec![acct(10), acct(11)];
    let (transfers, _event) = state
        .finalize_tournament(winners, &accounts, acct(AUTH), acct(KEY), 10)
        .unwrap();
    assert_eq!(
        transfers,
        vec![
            Transfer { to: acct(10), amount: 1200 },
            Transfer { to: acct(11), amount: 1200 },
        ]
    );
}
