use tournament::account_id::AccountId;
use tournament::errors::ErrorCode;
use tournament::state::TournamentPhase;
use tournament::state::TournamentState;

fn acct(n: u64) -> AccountId {
    AccountId { w0: n, w1: 0, w2: 0, w3: 0 }
}

fn creators() -> Vec<AccountId> {
    vec![acct(1)]
}

fn create(
    buy_in: u64,
    max_players: u8,
    match_size: u8,
    tp: u16,
    mp: u16,
    op: u16,
) -> Result<TournamentState, ErrorCode> {
    TournamentState::initialize_tournament(
        &creators(),
        acct(1),
        buy_in,
        max_players,
        match_size,
        tp,
        mp,
        op,
        acct(900),
        7,
    )
    .map(|(state, _event)| state)
}

#[test]
fn valid_config_creates_registration_state() {
    let (state, event) = TournamentState::initialize_tournament(
        &creators(),
        acct(1),
        1000,
        4,
        4,
        6000,
        2500,
        1500,
        acct(900),
        7,
    )
    .unwrap();
    assert!(matches!(state.phase, TournamentPhase::Registration));
    assert_eq!(state.buy_in_amount, 1000);
    assert_eq!(state.max_players, 4);
    assert_eq!(state.match_size, 4);
    assert_eq!(state.current_players, 0);
    assert_eq!(state.tournament_prize_percentage, 6000);
    assert_eq!(state.match_prize_percentage, 2500);
    assert_eq!(state.operator_fee_percentage, 1500);
    assert!(state.participants.is_empty());
    assert!(state.paid_match_ids.is_empty());
    assert!(state.tournament_payouts.is_empty());
    assert!(state.match_payout_percentages.is_empty());
    assert!(!state.operator_fee_withdrawn);
    assert_eq!(state.authority, acct(1));
    assert!(state.refunded_participants.is_empty());
    assert!(state.check_well_formed());
    assert_eq!(event.tournament, acct(900));
    assert_eq!(event.buy_in_amount, 1000);
    assert_eq!(event.max_players, 4);
    assert_eq!(event.match_size, 4);
    assert_eq!(event.authority, acct(1));
    assert_eq!(event.timestamp, 7);
}

#[test]
fn percentages_summing_to_9999_fail() {
    assert_eq!(
        create(1000, 4, 2, 6000, 2499, 1500).unwrap_err(),
        ErrorCode::InvalidPercentages
    );
}

#[test]
fn percentages_summing_to_10001_fail() {
    assert_eq!(
        create(1000, 4, 2, 6000, 2501, 1500).unwrap_err(),
        ErrorCode::InvalidPercentages
    );
}

#[test]
fn zero_buy_in_fails() {
    assert_eq!(
        create(0, 4, 2, 6000, 2500, 1500).unwrap_err(),
        ErrorCode::InvalidBuyInAmount
    );
}

#[test]
fn one_max_player_fails() {
    assert_eq!(
        create(1000, 1, 2, 6000, 2500, 1500).unwrap_err(),
        ErrorCode::InvalidMaxPlayers
    );
}

#[test]
fn one_hundred_one_max_players_fails() {
    assert_eq!(
        create(1000, 101, 2, 6000, 2500, 1500).unwrap_err(),
        ErrorCode::InvalidMaxPlayers
    );
}

#[test]
fn match_size_below_two_fails() {
    assert_eq!(
        create(1000, 4, 1, 6000, 2500, 1500).unwrap_err(),
        ErrorCode::InvalidMatchSize
    );
}

#[test]
fn match_size_above_max_players_fails() {
    assert_eq!(
        create(1000, 4, 5, 6000, 2500, 1500).unwrap_err(),
        ErrorCode::InvalidMatchSize
    );
}

#[test]
fn zero_tournament_percentage_fails() {
    assert_eq!(
        create(1000, 4, 2, 0, 8500, 1500).unwrap_err(),
        ErrorCode::InvalidTournamentPrizePercentage
    );
}

#[test]
fn tournament_percentage_below_half_fails() {
    assert_eq!(
        create(1000, 4, 2, 4999, 3501, 1500).unwrap_err(),
        ErrorCode::TournamentPrizeTooLow
    );
}

#[test]
fn zero_operator_fee_fails() {
    assert_eq!(
        create(1000, 4, 2, 6000, 4000, 0).unwrap_err(),
        ErrorCode::InvalidOperatorFeePercentage
    );
}

#[test]
fn operator_fee_above_cap_fails() {
    assert_eq!(
        create(1000, 4, 2, 6000, 2499, 1501).unwrap_err(),
        ErrorCode::InvalidOperatorFeePercentage
    );
}

#[test]
fn unapproved_creator_fails() {
    let r = TournamentState::initialize_tournament(
        &creators(),
        acct(2),
        1000,
        4,
        2,
        6000,
        2500,
        1500,
        acct(900),
        7,
    );
    assert_eq!(r.unwrap_err(), ErrorCode::UnauthorizedAuthority);
}
