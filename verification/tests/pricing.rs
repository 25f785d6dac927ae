use creator_token::error::CustomError;
use creator_token::pricing::{get_buying_cost, get_selling_return};

#[test]
fn flat_price_scenario() {
    // decimals = 0, base = 100, slope = 0, s0 = 0, t = 10  =>  cost = 1000
    assert_eq!(get_buying_cost(10, 0, 100, 0, 0), Ok(1000));
}

#[test]
fn pure_slope_scenario() {
    // numerator = 2 * (0*4 + 16/2) = 16, D = 1  =>  cost = 16
    assert_eq!(get_buying_cost(4, 0, 0, 2, 0), Ok(16));
}

#[test]
fn affine_scenario() {
    // numerator = 100*5 + 2*10*5 + 2*(25/2) = 500 + 100 + 24 = 624
    assert_eq!(get_buying_cost(5, 10, 100, 2, 0), Ok(624));
}

#[test]
fn unit_scaling() {
    // decimals = 1: cost = 5*40*10 / 100 = 20
    assert_eq!(get_buying_cost(40, 0, 5, 0, 1), Ok(20));
}

#[test]
fn fractional_cost_floors_to_zero() {
    // decimals = 1: numerator = 1*9*10 = 90 < 100, so the quotient floors to 0
    assert_eq!(get_buying_cost(9, 0, 1, 0, 1), Ok(0));
}

#[test]
fn largest_inputs_overflow() {
    // decimals = 19 with u64::MAX price and amount must report overflow,
    // not a wrapped value
    assert_eq!(
        get_buying_cost(u64::MAX, 0, u64::MAX, 0, 19),
        Err(CustomError::MathOverflow)
    );
}

#[test]
fn decimals_out_of_range_overflow() {
    // 10^20 squared no longer fits the intermediate type
    assert_eq!(get_buying_cost(1, 0, 1, 0, 20), Err(CustomError::MathOverflow));
    assert_eq!(get_buying_cost(1, 0, 1, 0, 64), Err(CustomError::MathOverflow));
    assert_eq!(get_selling_return(1, 0, 1, 0, 20), Err(CustomError::MathOverflow));
}

#[test]
fn largest_supported_decimals_work() {
    // decimals = 19 itself is supported: 1 whole token at base price 3
    // (numerator 3*10^38 still fits in u128)
    let whole_token = 10u64.pow(19);
    assert_eq!(get_buying_cost(whole_token, 0, 3, 0, 19), Ok(3));
}

#[test]
fn zero_tokens_cost_zero() {
    assert_eq!(get_buying_cost(0, 0, 100, 2, 0), Ok(0));
    assert_eq!(get_buying_cost(0, u64::MAX, u64::MAX, u64::MAX, 19), Ok(0));
    assert_eq!(get_selling_return(0, 12345, 100, 2, 6), Ok(0));
}

#[test]
fn cost_monotone_in_amount() {
    let mut last = 0u64;
    for t in [0u64, 1, 2, 10, 50, 1000] {
        let c = get_buying_cost(t, 42, 100, 3, 0).unwrap();
        assert!(c >= last);
        last = c;
    }
}

#[test]
fn cost_monotone_in_supply() {
    let mut last = 0u64;
    for s0 in [0u64, 1, 5, 100, 10_000] {
        let c = get_buying_cost(7, s0, 100, 3, 0).unwrap();
        assert!(c >= last);
        last = c;
    }
}

#[test]
fn selling_return_scenario() {
    // numerator = 100*5 + 2*10*5 - 2*(25/2) = 500 + 100 - 24 = 576
    assert_eq!(get_selling_return(5, 10, 100, 2, 0), Ok(576));
}

#[test]
fn selling_underflow_is_distinct() {
    // gross = 0, discount = 1*(16/2) = 8: reported as underflow, not overflow
    assert_eq!(get_selling_return(4, 0, 0, 1, 0), Err(CustomError::MathUnderflow));
}

#[test]
fn round_trip_flat_curve_is_exact() {
    // slope = 0: buying t at s0 and selling t against the reduced supply s0
    // pays back exactly the cost
    let cost = get_buying_cost(25, 40, 13, 0, 0).unwrap();
    let payout = get_selling_return(25, 40, 13, 0, 0).unwrap();
    assert_eq!(payout, cost);
}

#[test]
fn round_trip_sloped_curve_pays_less() {
    let cost = get_buying_cost(25, 40, 13, 2, 0).unwrap();
    let payout = get_selling_return(25, 40, 13, 2, 0).unwrap();
    assert!(payout < cost);
}
