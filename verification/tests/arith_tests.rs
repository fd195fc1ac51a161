use tournament::arith::calculate_percentage_amount;
use tournament::arith::calculate_total_buy_ins;
use tournament::errors::ErrorCode;

#[test]
fn total_buy_ins_is_players_times_fee() {
    assert_eq!(calculate_total_buy_ins(4, 1000), Ok(4000));
    assert_eq!(calculate_total_buy_ins(255, u64::MAX), Ok(255 * u64::MAX as u128));
}

#[test]
fn percentage_amount_takes_the_floor() {
    assert_eq!(calculate_percentage_amount(4000, 6000), Ok(2400));
    assert_eq!(calculate_percentage_amount(100, 10000), Ok(100));
    assert_eq!(calculate_percentage_amount(3, 3333), Ok(0));
    assert_eq!(calculate_percentage_amount(0, 10000), Ok(0));
}

#[test]
fn percentage_above_the_whole_fails_the_inverse_check() {
    assert_eq!(
        calculate_percentage_amount(100, 20000),
        Err(ErrorCode::CalculationOverflow)
    );
}

#[test]
fn percentage_product_overflowing_128_bits_fails() {
    assert_eq!(
        calculate_percentage_amount(u128::MAX, 2),
        Err(ErrorCode::CalculationOverflow)
    );
}
