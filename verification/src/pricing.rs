//! The fixed-point arithmetic kernel and the bonding-curve pricing engine.
//!
//! The token price is affine in the circulating supply,
//! `price(x) = base_price + slope * x`, with `base_price` and `slope`
//! expressed per whole token and every quantity expressed in the token's
//! smallest base unit.  With `D = 10^decimals`, the cost of moving the supply
//! from `s0` to `s0 + t` is
//!
//! ```text
//! numerator = base_price*t*D + slope*s0*t + slope*(t*t/2)
//! cost      = numerator / (D*D)
//! ```
//!
//! and the payout for redeeming `t` units subtracts the `slope*(t*t/2)` term
//! instead of adding it.  Every product and sum is evaluated in `u128`, wide
//! enough to hold any product of two 64-bit inputs, and checked; the final
//! quotient is narrowed back to `u64`.  Any step out of range reports
//! [`CustomError::MathOverflow`], and a sell-side subtraction that would go
//! negative reports the distinct [`CustomError::MathUnderflow`].

use vstd::prelude::*;
use vstd::arithmetic::div_mod::lemma_div_is_ordered;
use vstd::arithmetic::mul::lemma_mul_basics;
use vstd::arithmetic::mul::lemma_mul_inequality;
use vstd::arithmetic::mul::lemma_mul_is_commutative;
use vstd::arithmetic::mul::lemma_mul_nonnegative;
use vstd::arithmetic::mul::lemma_mul_strictly_positive;
use vstd::arithmetic::mul::lemma_mul_upper_bound;

use crate::error::CustomError;

verus! {

/// Largest supported number of fractional digits: `10^19` is the largest
/// power of ten whose square still fits in the `u128` intermediate type.
pub const MAX_DECIMALS: u8 = 19;

/// `10^e` as a mathematical integer.
pub open spec fn pow10(e: nat) -> int
    decreases e,
{
    if e == 0 {
        1
    } else {
        10 * pow10((e - 1) as nat)
    }
}

pub proof fn lemma_pow10_positive(e: nat)
    ensures
        pow10(e) >= 1,
    decreases e,
{
    if e > 0 {
        lemma_pow10_positive((e - 1) as nat);
    }
}

pub proof fn lemma_pow10_increases(e1: nat, e2: nat)
    requires
        e1 <= e2,
    ensures
        pow10(e1) <= pow10(e2),
    decreases e2,
{
    if e1 < e2 {
        lemma_pow10_increases(e1, (e2 - 1) as nat);
        lemma_pow10_positive((e2 - 1) as nat);
    }
}

/// The combined unit-scale divisor `D*D`, the square of `10^decimals`.
pub open spec fn scale_squared(decimals: int) -> int {
    pow10(decimals as nat) * pow10(decimals as nat)
}

pub proof fn lemma_scale_squared_positive(decimals: int)
    ensures
        scale_squared(decimals) >= 1,
{
    lemma_pow10_positive(decimals as nat);
    lemma_mul_strictly_positive(pow10(decimals as nat), pow10(decimals as nat));
}

/// The part of the pricing numerator common to buying and selling:
/// the flat term plus the current-supply term.
pub open spec fn curve_gross(t: int, s0: int, base: int, slope: int, decimals: int) -> int {
    base * t * pow10(decimals as nat) + slope * s0 * t
}

/// The half-square term `slope * (t*t/2)` that buying adds and selling
/// subtracts.
pub open spec fn half_square_term(t: int, slope: int) -> int {
    slope * ((t * t) / 2)
}

/// The buy-side numerator `base*t*D + slope*s0*t + slope*(t*t/2)`.
pub open spec fn buy_numerator(t: int, s0: int, base: int, slope: int, decimals: int) -> int {
    curve_gross(t, s0, base, slope, decimals) + half_square_term(t, slope)
}

/// The sell-side numerator `base*t*D + slope*s0*t - slope*(t*t/2)`.
pub open spec fn sell_numerator(t: int, s0: int, base: int, slope: int, decimals: int) -> int {
    curve_gross(t, s0, base, slope, decimals) - half_square_term(t, slope)
}

/// Exactly what `get_buying_cost` returns: the floored quotient of the
/// buy-side numerator by `D*D`, or `MathOverflow` if `decimals` is out of
/// range, the numerator exceeds `u128`, or the quotient exceeds `u64`.
pub open spec fn buying_cost_spec(
    t: u64,
    s0: u64,
    base: u64,
    slope: u64,
    decimals: u8,
) -> Result<u64, CustomError> {
    let numerator = buy_numerator(t as int, s0 as int, base as int, slope as int, decimals as int);
    let quotient = numerator / scale_squared(decimals as int);
    if decimals > MAX_DECIMALS {
        Err(CustomError::MathOverflow)
    } else if numerator > u128::MAX {
        Err(CustomError::MathOverflow)
    } else if quotient > u64::MAX {
        Err(CustomError::MathOverflow)
    } else {
        Ok(quotient as u64)
    }
}

/// Exactly what `get_selling_return` returns.  The gross part and the
/// half-square discount are checked separately: a discount larger than the
/// gross part is the distinct `MathUnderflow`, everything else out of range
/// is `MathOverflow`.
pub open spec fn selling_return_spec(
    t: u64,
    s0: u64,
    base: u64,
    slope: u64,
    decimals: u8,
) -> Result<u64, CustomError> {
    let gross = curve_gross(t as int, s0 as int, base as int, slope as int, decimals as int);
    let discount = half_square_term(t as int, slope as int);
    let quotient = (gross - discount) / scale_squared(decimals as int);
    if decimals > MAX_DECIMALS {
        Err(CustomError::MathOverflow)
    } else if gross > u128::MAX {
        Err(CustomError::MathOverflow)
    } else if discount > u128::MAX {
        Err(CustomError::MathOverflow)
    } else if gross < discount {
        Err(CustomError::MathUnderflow)
    } else if quotient > u64::MAX {
        Err(CustomError::MathOverflow)
    } else {
        Ok(quotient as u64)
    }
}

proof fn lemma_pow10_small_values()
    ensures
        pow10(19) == 10000000000000000000,
        pow10(20) == 100000000000000000000,
{
    reveal_with_fuel(pow10, 21);
}

/// `10^e` in `u128`, or `None` if it does not fit.
fn pow10_u128(e: u8) -> (r: Option<u128>)
    ensures
        r is Some <==> pow10(e as nat) <= u128::MAX,
        r matches Some(d) ==> d == pow10(e as nat),
{
    let mut acc: u128 = 1;
    let mut i: u8 = 0;
    while i < e
        invariant
            i <= e,
            acc == pow10(i as nat),
        decreases e - i,
    {
        match acc.checked_mul(10) {
            Some(v) => {
                acc = v;
                i = i + 1;
            },
            None => {
                proof {
                    lemma_pow10_increases(i as nat + 1, e as nat);
                }
                return None;
            },
        }
    }
    Some(acc)
}

/// Products of two values read from `u64` inputs stay within `u128`.
proof fn lemma_u64_product_fits(x: u128, y: u128)
    requires
        x <= u64::MAX,
        y <= u64::MAX,
    ensures
        x * y <= u128::MAX,
        x * y >= 0,
{
    lemma_mul_upper_bound(x as int, u64::MAX as int, y as int, u64::MAX as int);
    lemma_mul_nonnegative(x as int, y as int);
}

/// Once both the scale factor and its square fit in `u128`, `decimals` is
/// within the supported range, and the square is the spec-level divisor.
proof fn lemma_scale_fits_means_decimals_small(decimals: u8, d: u128, d2: u128)
    requires
        d == pow10(decimals as nat),
        d2 == pow10(decimals as nat) * pow10(decimals as nat),
    ensures
        decimals <= MAX_DECIMALS,
        d2 == scale_squared(decimals as int),
        d2 >= 1,
{
    lemma_pow10_small_values();
    lemma_scale_squared_positive(decimals as int);
    if decimals > MAX_DECIMALS {
        lemma_pow10_increases(20, decimals as nat);
        let p20 = pow10(20);
        lemma_mul_inequality(p20, d as int, p20);
        lemma_mul_is_commutative(d as int, p20);
        lemma_mul_inequality(p20, d as int, d as int);
        assert(p20 * p20 <= d * d);
    }
}

/// The scale factor and its square, or `MathOverflow` when `decimals`
/// exceeds the supported range.
fn checked_scale(decimals: u8) -> (r: Result<(u128, u128), CustomError>)
    ensures
        r is Ok <==> decimals <= MAX_DECIMALS,
        r matches Ok(p) ==> {
            &&& p.0 == pow10(decimals as nat)
            &&& p.1 == scale_squared(decimals as int)
            &&& p.1 >= 1
        },
        r is Err ==> r == Err::<(u128, u128), CustomError>(CustomError::MathOverflow),
{
    proof {
        lemma_pow10_small_values();
        lemma_pow10_positive(decimals as nat);
        if decimals as nat <= 19 {
            lemma_pow10_increases(decimals as nat, 19);
        }
    }
    let d = match pow10_u128(decimals) {
        Some(v) => v,
        None => {
            return Err(CustomError::MathOverflow);
        },
    };
    proof {
        if decimals <= MAX_DECIMALS {
            lemma_mul_upper_bound(d as int, pow10(19), d as int, pow10(19));
        }
    }
    match d.checked_mul(d) {
        Some(d2) => {
            proof {
                lemma_scale_fits_means_decimals_small(decimals, d, d2);
            }
            Ok((d, d2))
        },
        None => Err(CustomError::MathOverflow),
    }
}

/// The cost, in reserve units, of minting `tokens_to_buy_base` base units
/// when the circulating supply is `current_supply_base`: the integral of the
/// affine price over the supply interval being bought, floored once by the
/// combined unit scale `D*D`.
pub fn get_buying_cost(
    tokens_to_buy_base: u64,
    current_supply_base: u64,
    base_price_per_token: u64,
    slope_per_token: u64,
    decimals: u8,
) -> (r: Result<u64, CustomError>)
    ensures
        r == buying_cost_spec(
            tokens_to_buy_base,
            current_supply_base,
            base_price_per_token,
            slope_per_token,
            decimals,
        ),
{
    let (d, d2) = match checked_scale(decimals) {
        Ok(p) => p,
        Err(e) => {
            return Err(e);
        },
    };
    let t = tokens_to_buy_base as u128;
    let s0 = current_supply_base as u128;
    let b = base_price_per_token as u128;
    let m = slope_per_token as u128;
    let ghost gross = curve_gross(t as int, s0 as int, b as int, m as int, decimals as int);
    let ghost discount = half_square_term(t as int, m as int);
    proof {
        lemma_u64_product_fits(b, t);
        lemma_u64_product_fits(m, s0);
        lemma_u64_product_fits(t, t);
        lemma_mul_nonnegative((m * s0) as int, t as int);
        lemma_mul_nonnegative(b as int, t as int);
        lemma_mul_nonnegative((b * t) as int, d as int);
        lemma_mul_nonnegative(m as int, ((t * t) as int) / 2);
    }
    let term1 = match (b * t).checked_mul(d) {
        Some(v) => v,
        None => {
            return Err(CustomError::MathOverflow);
        },
    };
    let term2 = match (m * s0).checked_mul(t) {
        Some(v) => v,
        None => {
            return Err(CustomError::MathOverflow);
        },
    };
    let t2_half = (t * t) / 2;
    let term3 = match m.checked_mul(t2_half) {
        Some(v) => v,
        None => {
            return Err(CustomError::MathOverflow);
        },
    };
    let partial = match term1.checked_add(term2) {
        Some(v) => v,
        None => {
            return Err(CustomError::MathOverflow);
        },
    };
    let numer = match partial.checked_add(term3) {
        Some(v) => v,
        None => {
            return Err(CustomError::MathOverflow);
        },
    };
    let cost = numer / d2;
    if cost > u64::MAX as u128 {
        Err(CustomError::MathOverflow)
    } else {
        Ok(cost as u64)
    }
}

/// The payout, in reserve units, for redeeming `tokens_to_sell_base` base
/// units against a circulating supply of `current_supply_base`: the same
/// integral as the buy side, with the half-square term subtracted instead of
/// added.  A discount larger than the gross part reports `MathUnderflow`
/// rather than wrapping.
pub fn get_selling_return(
    tokens_to_sell_base: u64,
    current_supply_base: u64,
    base_price_per_token: u64,
    slope_per_token: u64,
    decimals: u8,
) -> (r: Result<u64, CustomError>)
    ensures
        r == selling_return_spec(
            tokens_to_sell_base,
            current_supply_base,
            base_price_per_token,
            slope_per_token,
            decimals,
        ),
{
    let (d, d2) = match checked_scale(decimals) {
        Ok(p) => p,
        Err(e) => {
            return Err(e);
        },
    };
    let t = tokens_to_sell_base as u128;
    let s0 = current_supply_base as u128;
    let b = base_price_per_token as u128;
    let m = slope_per_token as u128;
    proof {
        lemma_u64_product_fits(b, t);
        lemma_u64_product_fits(m, s0);
        lemma_u64_product_fits(t, t);
        lemma_mul_nonnegative((m * s0) as int, t as int);
        lemma_mul_nonnegative(b as int, t as int);
        lemma_mul_nonnegative((b * t) as int, d as int);
        lemma_mul_nonnegative(m as int, ((t * t) as int) / 2);
    }
    let term1 = match (b * t).checked_mul(d) {
        Some(v) => v,
        None => {
            return Err(CustomError::MathOverflow);
        },
    };
    let term2 = match (m * s0).checked_mul(t) {
        Some(v) => v,
        None => {
            return Err(CustomError::MathOverflow);
        },
    };
    let t2_half = (t * t) / 2;
    let term3 = match m.checked_mul(t2_half) {
        Some(v) => v,
        None => {
            return Err(CustomError::MathOverflow);
        },
    };
    let gross = match term1.checked_add(term2) {
        Some(v) => v,
        None => {
            return Err(CustomError::MathOverflow);
        },
    };
    let numer = match gross.checked_sub(term3) {
        Some(v) => v,
        None => {
            return Err(CustomError::MathUnderflow);
        },
    };
    let amount = numer / d2;
    if amount > u64::MAX as u128 {
        Err(CustomError::MathOverflow)
    } else {
        Ok(amount as u64)
    }
}

proof fn lemma_buy_numerator_monotone_in_t(
    t1: int,
    t2: int,
    s0: int,
    base: int,
    slope: int,
    decimals: int,
)
    requires
        0 <= t1 <= t2,
        0 <= s0,
        0 <= base,
        0 <= slope,
    ensures
        buy_numerator(t1, s0, base, slope, decimals) <= buy_numerator(t2, s0, base, slope, decimals),
        0 <= buy_numerator(t1, s0, base, slope, decimals),
{
    let d = pow10(decimals as nat);
    lemma_pow10_positive(decimals as nat);
    assert(base * t1 * d <= base * t2 * d) by (nonlinear_arith)
        requires
            0 <= base,
            0 <= t1 <= t2,
            1 <= d,
    ;
    assert(slope * s0 * t1 <= slope * s0 * t2) by (nonlinear_arith)
        requires
            0 <= slope,
            0 <= s0,
            0 <= t1 <= t2,
    ;
    assert(t1 * t1 <= t2 * t2) by (nonlinear_arith)
        requires
            0 <= t1 <= t2,
    ;
    lemma_div_is_ordered(t1 * t1, t2 * t2, 2);
    let h1 = (t1 * t1) / 2;
    let h2 = (t2 * t2) / 2;
    assert(slope * h1 <= slope * h2) by (nonlinear_arith)
        requires
            0 <= slope,
            h1 <= h2,
    ;
    lemma_mul_nonnegative(base, t1);
    lemma_mul_nonnegative(base * t1, d);
    lemma_mul_nonnegative(slope, s0);
    lemma_mul_nonnegative(slope * s0, t1);
    lemma_mul_nonnegative(t1, t1);
    lemma_mul_nonnegative(slope, h1);
}

/// Cost is monotonically non-decreasing in the quantity bought: whenever a
/// larger purchase is quotable at all, any smaller purchase from the same
/// state is quotable too and costs no more.
pub proof fn lemma_buying_cost_monotone_in_amount(
    t1: u64,
    t2: u64,
    s0: u64,
    base: u64,
    slope: u64,
    decimals: u8,
)
    requires
        t1 <= t2,
        buying_cost_spec(t2, s0, base, slope, decimals) is Ok,
    ensures
        buying_cost_spec(t1, s0, base, slope, decimals) is Ok,
        buying_cost_spec(t1, s0, base, slope, decimals)->Ok_0
            <= buying_cost_spec(t2, s0, base, slope, decimals)->Ok_0,
{
    let n1 = buy_numerator(t1 as int, s0 as int, base as int, slope as int, decimals as int);
    let n2 = buy_numerator(t2 as int, s0 as int, base as int, slope as int, decimals as int);
    lemma_buy_numerator_monotone_in_t(
        t1 as int,
        t2 as int,
        s0 as int,
        base as int,
        slope as int,
        decimals as int,
    );
    lemma_scale_squared_positive(decimals as int);
    lemma_div_is_ordered(n1, n2, scale_squared(decimals as int));
}

/// Buying zero tokens costs exactly zero for any valid curve state.
pub proof fn lemma_buying_cost_zero(s0: u64, base: u64, slope: u64, decimals: u8)
    requires
        decimals <= MAX_DECIMALS,
    ensures
        buying_cost_spec(0, s0, base, slope, decimals) == Ok::<u64, CustomError>(0),
{
    let d = pow10(decimals as nat);
    lemma_mul_basics(base as int);
    lemma_mul_basics(d);
    lemma_mul_basics(slope as int);
    lemma_mul_basics(slope as int * s0 as int);
    lemma_scale_squared_positive(decimals as int);
    assert(buy_numerator(0, s0 as int, base as int, slope as int, decimals as int) == 0);
    vstd::arithmetic::div_mod::lemma_div_basics_1(scale_squared(decimals as int));
    assert(0int / scale_squared(decimals as int) == 0);
}

/// Later buyers pay more: cost is monotonically non-decreasing in the
/// current supply.
pub proof fn lemma_buying_cost_monotone_in_supply(
    t: u64,
    s1: u64,
    s2: u64,
    base: u64,
    slope: u64,
    decimals: u8,
)
    requires
        s1 <= s2,
        buying_cost_spec(t, s2, base, slope, decimals) is Ok,
    ensures
        buying_cost_spec(t, s1, base, slope, decimals) is Ok,
        buying_cost_spec(t, s1, base, slope, decimals)->Ok_0
            <= buying_cost_spec(t, s2, base, slope, decimals)->Ok_0,
{
    let n1 = buy_numerator(t as int, s1 as int, base as int, slope as int, decimals as int);
    let n2 = buy_numerator(t as int, s2 as int, base as int, slope as int, decimals as int);
    assert(slope as int * s1 as int * t as int <= slope as int * s2 as int * t as int)
        by (nonlinear_arith)
        requires
            0 <= slope,
            0 <= s1 <= s2,
            0 <= t,
    ;
    let d = pow10(decimals as nat);
    lemma_pow10_positive(decimals as nat);
    lemma_mul_nonnegative(base as int, t as int);
    lemma_mul_nonnegative(base as int * t as int, d);
    lemma_mul_nonnegative(slope as int, s1 as int);
    lemma_mul_nonnegative(slope as int * s1 as int, t as int);
    lemma_mul_nonnegative(t as int, t as int);
    lemma_mul_nonnegative(slope as int, (t as int * t as int) / 2);
    lemma_scale_squared_positive(decimals as int);
    lemma_div_is_ordered(n1, n2, scale_squared(decimals as int));
}

/// Round-trip bound: buying `t` at supply `s0` and then immediately selling
/// `t` back quotes the sell against the already-reduced supply, which is
/// `s0` again, so the payout never exceeds the cost just paid; with a flat
/// curve (`slope == 0`) the payout equals the cost exactly.
pub proof fn lemma_round_trip_bound(t: u64, s0: u64, base: u64, slope: u64, decimals: u8)
    requires
        buying_cost_spec(t, s0, base, slope, decimals) is Ok,
    ensures
        selling_return_spec(t, s0, base, slope, decimals) matches Ok(payout)
            ==> payout <= buying_cost_spec(t, s0, base, slope, decimals)->Ok_0,
        slope == 0 ==> selling_return_spec(t, s0, base, slope, decimals)
            == buying_cost_spec(t, s0, base, slope, decimals),
{
    let gross = curve_gross(t as int, s0 as int, base as int, slope as int, decimals as int);
    let discount = half_square_term(t as int, slope as int);
    let d2 = scale_squared(decimals as int);
    lemma_scale_squared_positive(decimals as int);
    lemma_mul_nonnegative(t as int, t as int);
    lemma_mul_nonnegative(slope as int, (t as int * t as int) / 2);
    lemma_div_is_ordered(gross - discount, gross + discount, d2);
    if slope == 0 {
        lemma_mul_basics((t as int * t as int) / 2);
        assert(discount == 0);
        lemma_mul_nonnegative(base as int, t as int);
        lemma_pow10_positive(decimals as nat);
        lemma_mul_nonnegative(base as int * t as int, pow10(decimals as nat));
        lemma_mul_basics(s0 as int);
        lemma_mul_basics(t as int);
        assert(slope as int * s0 as int == 0);
        assert(slope as int * s0 as int * t as int == 0);
        assert(gross >= 0);
    }
}

} // verus!
