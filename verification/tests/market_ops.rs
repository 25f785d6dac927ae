use creator_token::error::{CurveError, IdentityError};
use creator_token::registry::CurveRegistry;
use creator_token::state::Holding;

const CREATOR: u64 = 7;
const MINT: u64 = 11;
const VAULT: u64 = 13;

fn registry_with_curve(
    decimals: u8,
    initial_supply: u64,
    base_price: u64,
    slope: u64,
) -> CurveRegistry {
    let mut reg = CurveRegistry::new();
    reg.create_creator_identity(CREATOR, String::from("alice"), String::from("https://example.com/alice"))
        .unwrap();
    reg.create_creator_token(CREATOR, MINT, VAULT, decimals, initial_supply, base_price, slope, 1_700_000_000)
        .unwrap();
    reg
}

#[test]
fn identity_validation() {
    let mut reg = CurveRegistry::new();
    let long_name: String = "x".repeat(51);
    let long_url: String = "y".repeat(201);
    assert_eq!(
        reg.create_creator_identity(CREATOR, long_name.clone(), String::from("u")),
        Err(IdentityError::NameTooLong)
    );
    assert_eq!(
        reg.create_creator_identity(CREATOR, String::from("alice"), long_url),
        Err(IdentityError::UrlTooLong)
    );
    assert_eq!(
        reg.create_creator_identity(CREATOR, String::from("alice"), String::from("u")),
        Ok(())
    );
    assert_eq!(
        reg.create_creator_identity(CREATOR, String::from("other"), String::from("u")),
        Err(IdentityError::AlreadyRegistered)
    );
}

#[test]
fn curve_creation_rules() {
    let mut reg = CurveRegistry::new();
    // no identity yet
    assert_eq!(
        reg.create_creator_token(CREATOR, MINT, VAULT, 0, 0, 100, 0, 0),
        Err(CurveError::ConfigNotFound)
    );
    reg.create_creator_identity(CREATOR, String::from("alice"), String::from("u"))
        .unwrap();
    // decimals out of the supported range
    assert_eq!(
        reg.create_creator_token(CREATOR, MINT, VAULT, 20, 0, 100, 0, 0),
        Err(CurveError::ArithmeticOverflow)
    );
    let created = reg.create_creator_token(CREATOR, MINT, VAULT, 0, 0, 100, 0, 0).unwrap();
    assert_eq!(created.base_price, 100);
    assert_eq!(created.slope, 0);
    // one curve per creator
    assert_eq!(
        reg.create_creator_token(CREATOR, MINT, VAULT, 0, 0, 200, 1, 0),
        Err(CurveError::ConfigAlreadyExists)
    );
}

#[test]
fn buy_collects_payment_then_mints() {
    let mut reg = registry_with_curve(0, 0, 100, 0);
    let mut buyer = Holding { lamports: 2_000, tokens: 0 };
    assert_eq!(reg.buy_creator_token(CREATOR, &mut buyer, 10), Ok(()));
    assert_eq!(buyer.lamports, 1_000);
    assert_eq!(buyer.tokens, 10);
    assert_eq!(reg.markets[0].supply, 10);
    assert_eq!(reg.markets[0].reserve, 1_000);
}

#[test]
fn buy_insufficient_funds_changes_nothing() {
    let mut reg = registry_with_curve(0, 0, 100, 0);
    let mut buyer = Holding { lamports: 999, tokens: 0 };
    assert_eq!(
        reg.buy_creator_token(CREATOR, &mut buyer, 10),
        Err(CurveError::InsufficientFunds)
    );
    assert_eq!(buyer, Holding { lamports: 999, tokens: 0 });
    assert_eq!(reg.markets[0].supply, 0);
    assert_eq!(reg.markets[0].reserve, 0);
}

#[test]
fn buy_overflow_propagates() {
    let mut reg = registry_with_curve(19, 0, u64::MAX, 0);
    let mut buyer = Holding { lamports: u64::MAX, tokens: 0 };
    assert_eq!(
        reg.buy_creator_token(CREATOR, &mut buyer, u64::MAX),
        Err(CurveError::ArithmeticOverflow)
    );
    assert_eq!(buyer, Holding { lamports: u64::MAX, tokens: 0 });
}

#[test]
fn unknown_creator_not_found() {
    let mut reg = registry_with_curve(0, 0, 100, 0);
    let mut h = Holding { lamports: 100, tokens: 100 };
    assert_eq!(reg.buy_creator_token(99, &mut h, 1), Err(CurveError::ConfigNotFound));
    assert_eq!(reg.sell_creator_token(99, &mut h, 1), Err(CurveError::ConfigNotFound));
    assert_eq!(reg.get_buying_token_price(99, 1), Err(CurveError::ConfigNotFound));
    assert_eq!(reg.get_selling_return_price(99, 1), Err(CurveError::ConfigNotFound));
}

#[test]
fn sell_burns_then_pays_from_reserve() {
    let mut reg = registry_with_curve(0, 0, 100, 0);
    let mut trader = Holding { lamports: 1_000, tokens: 0 };
    reg.buy_creator_token(CREATOR, &mut trader, 10).unwrap();
    assert_eq!(trader, Holding { lamports: 0, tokens: 10 });
    // flat curve: selling everything back returns exactly what was paid
    assert_eq!(reg.sell_creator_token(CREATOR, &mut trader, 10), Ok(()));
    assert_eq!(trader, Holding { lamports: 1_000, tokens: 0 });
    assert_eq!(reg.markets[0].supply, 0);
    assert_eq!(reg.markets[0].reserve, 0);
}

#[test]
fn sell_insufficient_balance_changes_nothing() {
    let mut reg = registry_with_curve(0, 0, 100, 0);
    let mut trader = Holding { lamports: 2_000, tokens: 0 };
    reg.buy_creator_token(CREATOR, &mut trader, 10).unwrap();
    assert_eq!(
        reg.sell_creator_token(CREATOR, &mut trader, 11),
        Err(CurveError::InsufficientBalance)
    );
    assert_eq!(trader, Holding { lamports: 1_000, tokens: 10 });
    assert_eq!(reg.markets[0].reserve, 1_000);
}

#[test]
fn sell_underflow_is_distinct() {
    // burning the whole supply of a pure-slope curve drives the quote
    // negative: reported as underflow
    let mut reg = registry_with_curve(0, 0, 0, 2);
    let mut trader = Holding { lamports: 1_000, tokens: 0 };
    reg.buy_creator_token(CREATOR, &mut trader, 4).unwrap();
    assert_eq!(
        reg.sell_creator_token(CREATOR, &mut trader, 4),
        Err(CurveError::ArithmeticUnderflow)
    );
}

#[test]
fn unfunded_initial_supply_hits_reserve_shortfall() {
    // the initial supply is minted without payment, so redeeming it against
    // an empty reserve is the drifted state the shortfall error reports
    let mut reg = registry_with_curve(0, 100, 50, 1);
    let mut creator_holding = Holding { lamports: 0, tokens: 100 };
    assert_eq!(
        reg.sell_creator_token(CREATOR, &mut creator_holding, 10),
        Err(CurveError::ReserveShortfall)
    );
    assert_eq!(creator_holding, Holding { lamports: 0, tokens: 100 });
    assert_eq!(reg.markets[0].supply, 100);
}

#[test]
fn quotes_match_operations() {
    let mut reg = registry_with_curve(0, 0, 60, 1);
    let mut trader = Holding { lamports: 1_000_000, tokens: 0 };
    let quoted = reg.get_buying_token_price(CREATOR, 100).unwrap();
    reg.buy_creator_token(CREATOR, &mut trader, 100).unwrap();
    assert_eq!(reg.markets[0].reserve, quoted);
    let quoted_sell = reg.get_selling_return_price(CREATOR, 30).unwrap();
    let before = trader.lamports;
    reg.sell_creator_token(CREATOR, &mut trader, 30).unwrap();
    assert_eq!(trader.lamports - before, quoted_sell);
}

#[test]
fn multi_step_solvency_scenario() {
    // buy 100, buy 50, sell 30, sell 120: the reserve always covers every
    // payout, so no ReserveShortfall can occur
    let mut reg = registry_with_curve(0, 0, 60, 1);
    let mut a = Holding { lamports: 100_000, tokens: 0 };
    let mut b = Holding { lamports: 100_000, tokens: 0 };
    assert_eq!(reg.buy_creator_token(CREATOR, &mut a, 100), Ok(()));
    assert_eq!(reg.buy_creator_token(CREATOR, &mut b, 50), Ok(()));
    // cost of 100 from supply 0: 60*100 + 100*100/2 = 11000
    // cost of 50 from supply 100: 60*50 + 100*50 + 50*50/2 = 9250
    assert_eq!(reg.markets[0].reserve, 20_250);
    assert_eq!(reg.sell_creator_token(CREATOR, &mut a, 30), Ok(()));
    // payout for 30 against reduced supply 120: 60*30 + 120*30 - 450 = 4950
    assert_eq!(reg.markets[0].reserve, 15_300);
    // c takes over the tokens a and b still hold
    let mut c = Holding { lamports: 0, tokens: a.tokens + b.tokens };
    assert_eq!(c.tokens, 120);
    assert_eq!(reg.sell_creator_token(CREATOR, &mut c, 120), Ok(()));
    // payout for 120 against reduced supply 0: 60*120 - 7200 = 0
    assert_eq!(reg.markets[0].reserve, 15_300);
    assert_eq!(reg.markets[0].supply, 0);
}

#[test]
fn get_returns_the_config() {
    let reg = registry_with_curve(2, 5, 100, 7);
    let cfg = reg.get(CREATOR).unwrap();
    assert_eq!(cfg.creator, CREATOR);
    assert_eq!(cfg.mint, MINT);
    assert_eq!(cfg.vault, VAULT);
    assert_eq!(cfg.base_price, 100);
    assert_eq!(cfg.slope, 7);
    assert_eq!(cfg.decimals, 2);
    assert_eq!(cfg.total_supply, 5);
    assert_eq!(reg.get(99), Err(CurveError::ConfigNotFound));
}

#[test]
fn sell_quote_rejects_more_than_supply() {
    let reg = registry_with_curve(0, 10, 100, 0);
    assert_eq!(
        reg.get_selling_return_price(CREATOR, 11),
        Err(CurveError::InsufficientBalance)
    );
    assert_eq!(reg.get_selling_return_price(CREATOR, 10), Ok(1_000));
}

#[test]
fn scaled_curve_quotes() {
    // decimals = 1, base = 5, slope = 10: buying 20 base units from supply 0
    // costs (5*20*10 + 10*(400/2)) / 100 = 30; selling 10 back against the
    // reduced supply 10 pays (5*10*10 + 10*10*10 - 10*(100/2)) / 100 = 10
    let mut reg = registry_with_curve(1, 0, 5, 10);
    let mut trader = Holding { lamports: 1_000, tokens: 0 };
    assert_eq!(reg.get_buying_token_price(CREATOR, 20), Ok(30));
    reg.buy_creator_token(CREATOR, &mut trader, 20).unwrap();
    assert_eq!(trader.lamports, 970);
    assert_eq!(reg.get_selling_return_price(CREATOR, 10), Ok(10));
    assert_eq!(reg.sell_creator_token(CREATOR, &mut trader, 10), Ok(()));
    assert_eq!(trader.lamports, 980);
    assert_eq!(trader.tokens, 10);
    assert_eq!(reg.markets[0].reserve, 20);
    assert_eq!(reg.markets[0].supply, 10);
}
