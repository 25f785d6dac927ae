//! One live curve: its configuration together with a plain-value model of
//! the two external resources every operation touches — the circulating
//! supply held by the token ledger and the reserve balance held by the
//! vault.
//!
//! Buying collects payment first and only then raises the supply; selling
//! lowers the supply first, quotes the payout against the already-reduced
//! supply, and only then pays out of the reserve.  Each operation either
//! performs all of its steps or none of them, so a failed step never leaves
//! payment collected without tokens issued or tokens burned without payout.

use vstd::prelude::*;

use crate::error::CurveError;
use crate::pricing::buying_cost_spec;
use crate::pricing::get_buying_cost;
use crate::pricing::get_selling_return;
use crate::pricing::selling_return_spec;
use crate::state::CreatorToken;
use crate::state::Holding;

verus! {

/// A curve's runtime state.  The two ghost totals record every reserve unit
/// ever collected from buyers and ever paid out to sellers; they exist only
/// for the solvency invariant and compile to nothing.
#[derive(Clone, Copy)]
pub struct Market {
    /// The persistent curve parameters; never mutated after creation.
    pub config: CreatorToken,
    /// Circulating supply of the curve's mint, in token base units.
    pub supply: u64,
    /// Balance of the value reserve backing redemptions.
    pub reserve: u64,
    /// Sum of all costs ever collected by buys.
    pub collected: Ghost<nat>,
    /// Sum of all payouts ever made by sells.
    pub paid: Ghost<nat>,
}

impl Market {
    /// The solvency invariant: what was paid out never exceeds what was
    /// collected, and the reserve holds exactly the difference.
    pub open spec fn wf(self) -> bool {
        &&& self.config.wf()
        &&& self.paid@ <= self.collected@
        &&& self.reserve == self.collected@ - self.paid@
    }

    /// The buy quote this market would use right now.
    pub open spec fn spec_buy_quote(self, t: u64) -> Result<u64, CurveError> {
        match buying_cost_spec(
            t,
            self.supply,
            self.config.base_price,
            self.config.slope,
            self.config.decimals,
        ) {
            Ok(c) => Ok(c),
            Err(e) => Err(CurveError::of_math_spec(e)),
        }
    }

    /// The sell quote this market would use right now: the supply is lowered
    /// by `t` first, so the quote is taken against `supply - t`.
    pub open spec fn spec_sell_quote(self, t: u64) -> Result<u64, CurveError> {
        if self.supply < t {
            Err(CurveError::InsufficientBalance)
        } else {
            match selling_return_spec(
                t,
                (self.supply - t) as u64,
                self.config.base_price,
                self.config.slope,
                self.config.decimals,
            ) {
                Ok(p) => Ok(p),
                Err(e) => Err(CurveError::of_math_spec(e)),
            }
        }
    }

    /// Exactly how a buy of `t` base units by `h` ends: `Ok` or the specific
    /// error, in the order the steps run.
    pub open spec fn spec_buy_result(self, h: Holding, t: u64) -> Result<(), CurveError> {
        match self.spec_buy_quote(t) {
            Err(e) => Err(e),
            Ok(cost) => if h.lamports < cost {
                Err(CurveError::InsufficientFunds)
            } else if self.reserve + cost > u64::MAX {
                Err(CurveError::ArithmeticOverflow)
            } else if self.supply + t > u64::MAX {
                Err(CurveError::ArithmeticOverflow)
            } else if h.tokens + t > u64::MAX {
                Err(CurveError::ArithmeticOverflow)
            } else {
                Ok(())
            },
        }
    }

    /// Exactly how a sell of `t` base units by `h` ends.
    pub open spec fn spec_sell_result(self, h: Holding, t: u64) -> Result<(), CurveError> {
        if h.tokens < t {
            Err(CurveError::InsufficientBalance)
        } else {
            match self.spec_sell_quote(t) {
                Err(e) => Err(e),
                Ok(payout) => if self.reserve < payout {
                    Err(CurveError::ReserveShortfall)
                } else if h.lamports + payout > u64::MAX {
                    Err(CurveError::ArithmeticOverflow)
                } else {
                    Ok(())
                },
            }
        }
    }

    /// Open a market for a newly created curve: the snapshot supply is
    /// circulating and the reserve starts empty.
    pub fn open(config: CreatorToken) -> (m: Market)
        requires
            config.wf(),
        ensures
            m.wf(),
            m.config == config,
            m.supply == config.total_supply,
            m.reserve == 0,
            m.collected@ == 0,
            m.paid@ == 0,
    {
        Market { config, supply: config.total_supply, reserve: 0, collected: Ghost(0), paid: Ghost(0) }
    }

    /// Issuance: quote the cost against the pre-purchase supply, collect the
    /// payment into the reserve, and only then raise the supply and credit
    /// the buyer.  On any failure nothing changes.
    pub fn buy(&mut self, buyer: &mut Holding, t: u64) -> (r: Result<(), CurveError>)
        requires
            old(self).wf(),
        ensures
            final(self).wf(),
            r == old(self).spec_buy_result(*old(buyer), t),
            r is Err ==> *final(self) == *old(self) && *final(buyer) == *old(buyer),
            r is Ok ==> {
                let cost = old(self).spec_buy_quote(t)->Ok_0;
                &&& final(self).config == old(self).config
                &&& final(self).supply == old(self).supply + t
                &&& final(self).reserve == old(self).reserve + cost
                &&& final(self).collected@ == old(self).collected@ + cost
                &&& final(self).paid@ == old(self).paid@
                &&& final(buyer).lamports == old(buyer).lamports - cost
                &&& final(buyer).tokens == old(buyer).tokens + t
            },
    {
        let cost = match get_buying_cost(
            t,
            self.supply,
            self.config.base_price,
            self.config.slope,
            self.config.decimals,
        ) {
            Ok(c) => c,
            Err(e) => {
                return Err(CurveError::of_math(e));
            },
        };
        if buyer.lamports < cost {
            return Err(CurveError::InsufficientFunds);
        }
        let new_reserve = match self.reserve.checked_add(cost) {
            Some(v) => v,
            None => {
                return Err(CurveError::ArithmeticOverflow);
            },
        };
        let new_supply = match self.supply.checked_add(t) {
            Some(v) => v,
            None => {
                return Err(CurveError::ArithmeticOverflow);
            },
        };
        let new_tokens = match buyer.tokens.checked_add(t) {
            Some(v) => v,
            None => {
                return Err(CurveError::ArithmeticOverflow);
            },
        };
        buyer.lamports = buyer.lamports - cost;
        buyer.tokens = new_tokens;
        self.reserve = new_reserve;
        self.supply = new_supply;
        self.collected = Ghost((self.collected@ + cost) as nat);
        Ok(())
    }

    /// Redemption: burn the seller's tokens first, quote the payout against
    /// the already-reduced supply, and only then pay the seller out of the
    /// reserve.  On any failure nothing changes.
    pub fn sell(&mut self, seller: &mut Holding, t: u64) -> (r: Result<(), CurveError>)
        requires
            old(self).wf(),
        ensures
            final(self).wf(),
            r == old(self).spec_sell_result(*old(seller), t),
            r is Err ==> *final(self) == *old(self) && *final(seller) == *old(seller),
            r is Ok ==> {
                let payout = old(self).spec_sell_quote(t)->Ok_0;
                &&& final(self).config == old(self).config
                &&& final(self).supply == old(self).supply - t
                &&& final(self).reserve == old(self).reserve - payout
                &&& final(self).collected@ == old(self).collected@
                &&& final(self).paid@ == old(self).paid@ + payout
                &&& final(seller).lamports == old(seller).lamports + payout
                &&& final(seller).tokens == old(seller).tokens - t
            },
    {
        if seller.tokens < t {
            return Err(CurveError::InsufficientBalance);
        }
        if self.supply < t {
            return Err(CurveError::InsufficientBalance);
        }
        let reduced_supply = self.supply - t;
        let payout = match get_selling_return(
            t,
            reduced_supply,
            self.config.base_price,
            self.config.slope,
            self.config.decimals,
        ) {
            Ok(p) => p,
            Err(e) => {
                return Err(CurveError::of_math(e));
            },
        };
        if self.reserve < payout {
            return Err(CurveError::ReserveShortfall);
        }
        let new_lamports = match seller.lamports.checked_add(payout) {
            Some(v) => v,
            None => {
                return Err(CurveError::ArithmeticOverflow);
            },
        };
        seller.lamports = new_lamports;
        seller.tokens = seller.tokens - t;
        self.reserve = self.reserve - payout;
        self.supply = reduced_supply;
        self.paid = Ghost((self.paid@ + payout) as nat);
        Ok(())
    }

    /// Read-only buy quote: exactly the number a buy at this instant would
    /// charge.
    pub fn quote_buy(&self, t: u64) -> (r: Result<u64, CurveError>)
        ensures
            r == self.spec_buy_quote(t),
    {
        match get_buying_cost(
            t,
            self.supply,
            self.config.base_price,
            self.config.slope,
            self.config.decimals,
        ) {
            Ok(c) => Ok(c),
            Err(e) => Err(CurveError::of_math(e)),
        }
    }

    /// Read-only sell quote: exactly the number a sell at this instant would
    /// pay out, quoted against the supply as already reduced by `t`.
    pub fn quote_sell(&self, t: u64) -> (r: Result<u64, CurveError>)
        ensures
            r == self.spec_sell_quote(t),
    {
        if self.supply < t {
            return Err(CurveError::InsufficientBalance);
        }
        match get_selling_return(
            t,
            self.supply - t,
            self.config.base_price,
            self.config.slope,
            self.config.decimals,
        ) {
            Ok(p) => Ok(p),
            Err(e) => Err(CurveError::of_math(e)),
        }
    }
}

/// Round-trip bound at the market level: `before` is a market about to sell
/// `t` base units that a successful buy of `t` (from any holding) just
/// brought to this supply.  The sell burns first, so its quote is taken
/// against the supply the buy started from, and the payout never exceeds the
/// cost the buy collected; with a flat curve (`slope == 0`) the two quotes
/// are equal.
pub proof fn lemma_market_round_trip(before: Market, after: Market, h: Holding, t: u64)
    requires
        before.spec_buy_result(h, t) is Ok,
        after.config == before.config,
        after.supply == before.supply + t,
    ensures
        after.spec_sell_quote(t) matches Ok(payout) ==> payout <= before.spec_buy_quote(t)->Ok_0,
        before.config.slope == 0 ==> after.spec_sell_quote(t) == before.spec_buy_quote(t),
{
    crate::pricing::lemma_round_trip_bound(
        t,
        before.supply,
        before.config.base_price,
        before.config.slope,
        before.config.decimals,
    );
}

/// Reserve solvency: in every well-formed market state the sum of all
/// payouts ever made by sells stays within the sum of all costs ever
/// collected by buys, and the reserve holds exactly the difference — no
/// sequence of buys and sells can drain more value than was put in.
pub proof fn lemma_reserve_solvency(m: Market)
    requires
        m.wf(),
    ensures
        m.paid@ <= m.collected@,
        m.reserve == m.collected@ - m.paid@,
{
}

} // verus!
