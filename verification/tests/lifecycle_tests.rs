use tournament::account_id::AccountId;
use tournament::errors::ErrorCode;
use tournament::state::TournamentPhase;
use tournament::state::TournamentState;
use tournament::winner::flatten;
use tournament::winner::winners_total_positions;
use tournament::winner::Winner;

fn acct(n: u64) -> AccountId {
    AccountId { w0: n, w1: 0, w2: 0, w3: 0 }
}

const AUTH: u64 = 1;
const KEY: u64 = 900;

fn new_tournament(buy_in: u64, max_players: u8, match_size: u8) -> TournamentState {
    let creators = vec![acct(AUTH)];
    let (state, _) = TournamentState::initialize_tournament(
        &creators,
        acct(AUTH),
        buy_in,
        max_players,
        match_size,
        6000,
        2500,
        1500,
        acct(KEY),
        7,
    )
    .unwrap();
    state
}

fn finalized_standard() -> TournamentState {
    let mut state = new_tournament(1000, 4, 4);
    for n in 10..14u64 {
        state.buy_in(acct(n), acct(AUTH), acct(KEY), 8).unwrap();
    }
    state
        .start_tournament(vec![10000], vec![6000, 4000], acct(AUTH), acct(KEY), 9)
        .unwrap();
    state
        .finalize_tournament(
            vec![Winner::Individual(acct(10))],
            &vec![acct(10)],
            acct(AUTH),
            acct(KEY),
            10,
        )
        .unwrap();
    state
}

#[test]
fn operator_fee_is_six_hundred_exactly_once() {
    let mut state = finalized_standard();
    let (transfer, event) = state
        .withdraw_operator_fee(acct(50), acct(AUTH), acct(KEY), 11)
        .unwrap();
    assert_eq!(transfer.to, acct(50));
    assert_eq!(transfer.amount, 600);
    assert!(state.operator_fee_withdrawn);
    assert!(state.check_well_formed());
    assert_eq!(event.recipient, acct(50));
    assert_eq!(event.amount, 600);
    assert_eq!(event.tournament, acct(KEY));
    assert_eq!(event.timestamp, 11);
    let repeat = state.withdraw_operator_fee(acct(50), acct(AUTH), acct(KEY), 12);
    assert_eq!(repeat.unwrap_err(), ErrorCode::OperatorFeeAlreadyWithdrawn);
}

#[test]
fn operator_fee_before_finalization_fails() {
    let mut state = new_tournament(1000, 4, 4);
    state.buy_in(acct(10), acct(AUTH), acct(KEY), 8).unwrap();
    let r = state.withdraw_operator_fee(acct(50), acct(AUTH), acct(KEY), 9);
    assert_eq!(r.unwrap_err(), ErrorCode::TournamentNotFinalized);
}

#[test]
fn cancelled_tournament_refunds_each_player_once() {
    let mut state = new_tournament(1000, 4, 4);
    state.buy_in(acct(10), acct(AUTH), acct(KEY), 8).unwrap();
    state.buy_in(acct(11), acct(AUTH), acct(KEY), 8).unwrap();
    let event = state.cancel_tournament(acct(AUTH), acct(KEY), 9).unwrap();
    assert!(matches!(state.phase, TournamentPhase::Cancelled));
    assert_eq!(event.tournament, acct(KEY));
    assert_eq!(event.timestamp, 9);

    let (t1, e1) = state.refund_participant(acct(10), acct(AUTH), acct(KEY), 10).unwrap();
    assert_eq!(t1.to, acct(10));
    assert_eq!(t1.amount, 1000);
    assert_eq!(e1.participant, acct(10));
    assert_eq!(e1.amount, 1000);
    let (t2, _) = state.refund_participant(acct(11), acct(AUTH), acct(KEY), 11).unwrap();
    assert_eq!(t2.to, acct(11));
    assert_eq!(t2.amount, 1000);
    assert_eq!(state.refunded_participants, vec![acct(10), acct(11)]);
    assert!(state.check_well_formed());

    let again = state.refund_participant(acct(10), acct(AUTH), acct(KEY), 12);
    assert_eq!(again.unwrap_err(), ErrorCode::ParticipantAlreadyRefunded);
    let again2 = state.refund_participant(acct(11), acct(AUTH), acct(KEY), 12);
    assert_eq!(again2.unwrap_err(), ErrorCode::ParticipantAlreadyRefunded);
}

#[test]
fn refund_before_cancellation_fails() {
    let mut state = new_tournament(1000, 4, 4);
    state.buy_in(acct(10), acct(AUTH), acct(KEY), 8).unwrap();
    let r = state.refund_participant(acct(10), acct(AUTH), acct(KEY), 9);
    assert_eq!(r.unwrap_err(), ErrorCode::TournamentNotCancelled);
}

#[test]
fn refund_of_unregistered_identity_fails() {
    let mut state = new_tournament(1000, 4, 4);
    state.buy_in(acct(10), acct(AUTH), acct(KEY), 8).unwrap();
    state.cancel_tournament(acct(AUTH), acct(KEY), 9).unwrap();
    let r = state.refund_participant(acct(77), acct(AUTH), acct(KEY), 10);
    assert_eq!(r.unwrap_err(), ErrorCode::ParticipantNotFound);
}

#[test]
fn cancel_after_start_fails() {
    let mut state = new_tournament(1000, 4, 4);
    state.buy_in(acct(10), acct(AUTH), acct(KEY), 8).unwrap();
    state
        .start_tournament(vec![10000], vec![10000], acct(AUTH), acct(KEY), 9)
        .unwrap();
    let r = state.cancel_tournament(acct(AUTH), acct(KEY), 10);
    assert_eq!(r.unwrap_err(), ErrorCode::TournamentAlreadyStarted);
    assert!(matches!(state.phase, TournamentPhase::Playing));
}

#[test]
fn finalize_outside_playing_fails() {
    let mut state = new_tournament(1000, 4, 4);
    state.buy_in(acct(10), acct(AUTH), acct(KEY), 8).unwrap();
    let winners = vec![Winner::Individual(acct(10))];
    let r = state.finalize_tournament(winners, &vec![acct(10)], acct(AUTH), acct(KEY), 9);
    assert_eq!(r.unwrap_err(), ErrorCode::InvalidPhase);
}

#[test]
fn match_distribution_before_finalization_fails() {
    let mut state = new_tournament(1000, 4, 4);
    state.buy_in(acct(10), acct(AUTH), acct(KEY), 8).unwrap();
    state
        .start_tournament(vec![10000], vec![10000], acct(AUTH), acct(KEY), 9)
        .unwrap();
    let winners = vec![Winner::Individual(acct(10))];
    let r = state.distribute_match_rewards(5, winners, &vec![acct(10)], acct(AUTH), acct(KEY), 10);
    assert_eq!(r.unwrap_err(), ErrorCode::TournamentNotFinalized);
}

#[test]
fn authority_gates_every_mutating_operation() {
    let mut state = new_tournament(1000, 4, 4);
    state.buy_in(acct(10), acct(AUTH), acct(KEY), 8).unwrap();
    let stranger = acct(99);
    assert_eq!(
        state
            .start_tournament(vec![10000], vec![10000], stranger, acct(KEY), 9)
            .unwrap_err(),
        ErrorCode::UnauthorizedAuthority
    );
    assert_eq!(
        state.cancel_tournament(stranger, acct(KEY), 9).unwrap_err(),
        ErrorCode::UnauthorizedAuthority
    );
    assert_eq!(
        state
            .withdraw_operator_fee(acct(50), stranger, acct(KEY), 9)
            .unwrap_err(),
        ErrorCode::UnauthorizedAuthority
    );
    assert_eq!(
        state
            .refund_participant(acct(10), stranger, acct(KEY), 9)
            .unwrap_err(),
        ErrorCode::UnauthorizedAuthority
    );
    assert_eq!(
        state
            .distribute_match_rewards(
                5,
                vec![Winner::Individual(acct(10))],
                &vec![acct(10)],
                stranger,
                acct(KEY),
                9,
            )
            .unwrap_err(),
        ErrorCode::UnauthorizedAuthority
    );
}

#[test]
fn invariant_check_rejects_corrupt_state() {
    let mut state = new_tournament(1000, 4, 4);
    state.buy_in(acct(10), acct(AUTH), acct(KEY), 8).unwrap();
    assert!(state.check_well_formed());
    state.current_players = 3;
    assert!(!state.check_well_formed());
}

#[test]
fn position_accounting_and_flattening_follow_list_order() {
    let winners = vec![
        Winner::Individual(acct(10)),
        Winner::Group(vec![acct(11), acct(12)], 3),
    ];
    assert_eq!(winners_total_positions(&winners), Some(4));
    assert_eq!(flatten(&winners), vec![acct(10), acct(11), acct(12)]);
}
