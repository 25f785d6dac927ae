//! The keyed store of identity records and curves: one identity record and
//! at most one curve per creator key, with uniqueness enforced at creation
//! time.  Every program-level operation — register an identity, create a
//! curve, buy, sell, quote — enters through here and is dispatched to the
//! market registered under the given creator.

use vstd::prelude::*;

use crate::error::CurveError;
use crate::error::IdentityError;
use crate::market::Market;
use crate::state::CreatorToken;
use crate::state::Holding;
use crate::state::Identity;
use crate::state::MAX_NAME_LEN;
use crate::state::MAX_URL_LEN;
use crate::pricing::MAX_DECIMALS;

verus! {

/// All curves of one deployment, keyed by creator.
pub struct CurveRegistry {
    /// Registered identity records, pairwise distinct creators.
    pub identities: Vec<Identity>,
    /// Live curves, pairwise distinct creators.
    pub markets: Vec<Market>,
}

impl CurveRegistry {
    /// Keys are unique on both sides and every stored record is well formed.
    pub open spec fn wf(self) -> bool {
        &&& forall|i: int, j: int|
            0 <= i < j < self.markets@.len() ==> self.markets@[i].config.creator
                != self.markets@[j].config.creator
        &&& forall|i: int, j: int|
            0 <= i < j < self.identities@.len() ==> self.identities@[i].creator
                != self.identities@[j].creator
        &&& forall|i: int| 0 <= i < self.markets@.len() ==> self.markets@[i].wf()
        &&& forall|i: int| 0 <= i < self.identities@.len() ==> self.identities@[i].wf()
    }

    /// An identity record exists for this creator.
    pub open spec fn has_identity(self, creator: u64) -> bool {
        exists|i: int| 0 <= i < self.identities@.len() && self.identities@[i].creator == creator
    }

    /// A curve exists for this creator.
    pub open spec fn has_curve(self, creator: u64) -> bool {
        exists|i: int| 0 <= i < self.markets@.len() && self.markets@[i].config.creator == creator
    }

    /// Position of this creator's curve; meaningful when `has_curve` holds
    /// (and then unique, by `wf`).
    pub open spec fn curve_index(self, creator: u64) -> int {
        choose|i: int| 0 <= i < self.markets@.len() && self.markets@[i].config.creator == creator
    }

    /// This creator's curve; meaningful when `has_curve` holds.
    pub open spec fn curve(self, creator: u64) -> Market {
        self.markets@[self.curve_index(creator)]
    }

    /// An empty registry.
    pub fn new() -> (r: CurveRegistry)
        ensures
            r.wf(),
            r.identities@.len() == 0,
            r.markets@.len() == 0,
    {
        CurveRegistry { identities: Vec::new(), markets: Vec::new() }
    }

    /// Position of this creator's curve, or `None` when it has none.
    fn find_curve(&self, creator: u64) -> (r: Option<usize>)
        requires
            self.wf(),
        ensures
            match r {
                Some(i) => self.has_curve(creator) && i == self.curve_index(creator)
                    && 0 <= i < self.markets@.len(),
                None => !self.has_curve(creator),
            },
    {
        let n = self.markets.len();
        let mut k: usize = 0;
        while k < n
            invariant
                self.wf(),
                n == self.markets@.len(),
                k <= n,
                forall|j: int| 0 <= j < k ==> self.markets@[j].config.creator != creator,
            decreases n - k,
    {
            if self.markets[k].config.creator == creator {
                proof {
                    assert(self.has_curve(creator));
                    let ci = self.curve_index(creator);
                    assert(0 <= ci < self.markets@.len()
                        && self.markets@[ci].config.creator == creator);
                }
                return Some(k);
            }
            k = k + 1;
        }
        None
    }

    /// Position of this creator's identity record, or `None`.
    fn find_identity(&self, creator: u64) -> (r: Option<usize>)
        requires
            self.wf(),
        ensures
            r is Some <==> self.has_identity(creator),
    {
        let n = self.identities.len();
        let mut k: usize = 0;
        while k < n
            invariant
                self.wf(),
                n == self.identities@.len(),
                k <= n,
                forall|j: int| 0 <= j < k ==> self.identities@[j].creator != creator,
            decreases n - k,
        {
            if self.identities[k].creator == creator {
                proof {
                    assert(self.has_identity(creator));
                }
                return Some(k);
            }
            k = k + 1;
        }
        None
    }

    /// Register a creator identity: rejected when one already exists for
    /// this creator, when the name exceeds [`MAX_NAME_LEN`] characters, or
    /// when the URL exceeds [`MAX_URL_LEN`] characters, in that order.
    pub fn create_creator_identity(
        &mut self,
        creator: u64,
        user_name: String,
        proof_url: String,
    ) -> (r: Result<(), IdentityError>)
        requires
            old(self).wf(),
        ensures
            final(self).wf(),
            final(self).markets@ == old(self).markets@,
            r == Err::<(), IdentityError>(IdentityError::AlreadyRegistered) <==> old(
                self,
            ).has_identity(creator),
            r == Err::<(), IdentityError>(IdentityError::NameTooLong) <==> !old(self).has_identity(
                creator,
            ) && user_name@.len() > MAX_NAME_LEN,
            r == Err::<(), IdentityError>(IdentityError::UrlTooLong) <==> !old(self).has_identity(
                creator,
            ) && user_name@.len() <= MAX_NAME_LEN && proof_url@.len() > MAX_URL_LEN,
            r is Ok <==> !old(self).has_identity(creator) && user_name@.len() <= MAX_NAME_LEN
                && proof_url@.len() <= MAX_URL_LEN,
            r is Err ==> final(self).identities@ == old(self).identities@,
            r is Ok ==> {
                let n = old(self).identities@.len() as int;
                &&& final(self).identities@.len() == n + 1
                &&& forall|j: int| 0 <= j < n ==> final(self).identities@[j] == old(
                    self,
                ).identities@[j]
                &&& final(self).identities@[n].creator == creator
                &&& final(self).identities@[n].creator_name@ == user_name@
                &&& final(self).identities@[n].proof_url@ == proof_url@
                &&& final(self).has_identity(creator)
            },
    {
        if self.find_identity(creator).is_some() {
            return Err(IdentityError::AlreadyRegistered);
        }
        let id = match Identity::new(creator, user_name, proof_url) {
            Ok(v) => v,
            Err(e) => {
                return Err(e);
            },
        };
        let ghost n = self.identities@.len() as int;
        self.identities.push(id);
        proof {
            assert(self.identities@[n].creator == creator);
            assert(self.has_identity(creator));
        }
        Ok(())
    }

    /// Create this creator's curve: rejected when the creator has no
    /// identity record, when a curve already exists, or when `decimals`
    /// exceeds [`MAX_DECIMALS`], in that order.  The market opens with the
    /// initial supply circulating and an empty reserve.
    pub fn create_creator_token(
        &mut self,
        creator: u64,
        mint: u64,
        vault: u64,
        decimals: u8,
        initial_supply: u64,
        base_price: u64,
        slope: u64,
        created_at: i64,
    ) -> (r: Result<CreatorToken, CurveError>)
        requires
            old(self).wf(),
        ensures
            final(self).wf(),
            final(self).identities@ == old(self).identities@,
            r == Err::<CreatorToken, CurveError>(CurveError::ConfigNotFound) <==> !old(
                self,
            ).has_identity(creator),
            r == Err::<CreatorToken, CurveError>(CurveError::ConfigAlreadyExists) <==> old(
                self,
            ).has_identity(creator) && old(self).has_curve(creator),
            r == Err::<CreatorToken, CurveError>(CurveError::ArithmeticOverflow) <==> old(
                self,
            ).has_identity(creator) && !old(self).has_curve(creator) && decimals > MAX_DECIMALS,
            r is Ok <==> old(self).has_identity(creator) && !old(self).has_curve(creator)
                && decimals <= MAX_DECIMALS,
            r is Err ==> final(self).markets@ == old(self).markets@,
            r is Ok ==> {
                let n = old(self).markets@.len() as int;
                &&& r->Ok_0 == (CreatorToken {
                    creator,
                    mint,
                    vault,
                    base_price,
                    slope,
                    decimals,
                    total_supply: initial_supply,
                    created_at,
                })
                &&& final(self).markets@.len() == n + 1
                &&& forall|j: int| 0 <= j < n ==> final(self).markets@[j] == old(self).markets@[j]
                &&& final(self).markets@[n].config == r->Ok_0
                &&& final(self).markets@[n].supply == initial_supply
                &&& final(self).markets@[n].reserve == 0
                &&& final(self).markets@[n].collected@ == 0
                &&& final(self).markets@[n].paid@ == 0
                &&& final(self).has_curve(creator)
            },
    {
        if self.find_identity(creator).is_none() {
            return Err(CurveError::ConfigNotFound);
        }
        if self.find_curve(creator).is_some() {
            return Err(CurveError::ConfigAlreadyExists);
        }
        if decimals > MAX_DECIMALS {
            return Err(CurveError::ArithmeticOverflow);
        }
        let config = CreatorToken {
            creator,
            mint,
            vault,
            base_price,
            slope,
            decimals,
            total_supply: initial_supply,
            created_at,
        };
        let ghost n = self.markets@.len() as int;
        self.markets.push(Market::open(config));
        proof {
            assert(self.markets@[n].config.creator == creator);
            assert(self.has_curve(creator));
        }
        Ok(config)
    }
    /// This creator's curve configuration, or `ConfigNotFound` when none was
    /// created.
    pub fn get(&self, creator: u64) -> (r: Result<CreatorToken, CurveError>)
        requires
            self.wf(),
        ensures
            r is Ok <==> self.has_curve(creator),
            r matches Ok(config) ==> config == self.curve(creator).config,
            r is Err ==> r == Err::<CreatorToken, CurveError>(CurveError::ConfigNotFound),
    {
        match self.find_curve(creator) {
            Some(i) => Ok(self.markets[i].config),
            None => Err(CurveError::ConfigNotFound),
        }
    }

    /// Buy `tokens_to_buy` base units of this creator's token: quote against
    /// the pre-purchase supply, collect the cost from the buyer into the
    /// reserve, then mint to the buyer.  Fails with `ConfigNotFound` when the
    /// creator has no curve; any failure leaves every balance unchanged.
    pub fn buy_creator_token(&mut self, creator: u64, buyer: &mut Holding, tokens_to_buy: u64) -> (r:
        Result<(), CurveError>)
        requires
            old(self).wf(),
        ensures
            final(self).wf(),
            final(self).identities@ == old(self).identities@,
            !old(self).has_curve(creator) ==> r == Err::<(), CurveError>(CurveError::ConfigNotFound)
                && final(self).markets@ == old(self).markets@ && *final(buyer) == *old(buyer),
            old(self).has_curve(creator) ==> {
                let i = old(self).curve_index(creator);
                let m0 = old(self).markets@[i];
                &&& r == m0.spec_buy_result(*old(buyer), tokens_to_buy)
                &&& final(self).markets@.len() == old(self).markets@.len()
                &&& forall|j: int|
                    0 <= j < old(self).markets@.len() && j != i ==> final(self).markets@[j] == old(
                        self,
                    ).markets@[j]
                &&& (r is Err ==> final(self).markets@ == old(self).markets@ && *final(buyer)
                    == *old(buyer))
                &&& (r is Ok ==> {
                    let cost = m0.spec_buy_quote(tokens_to_buy)->Ok_0;
                    &&& final(self).markets@[i].config == m0.config
                    &&& final(self).markets@[i].supply == m0.supply + tokens_to_buy
                    &&& final(self).markets@[i].reserve == m0.reserve + cost
                    &&& final(self).markets@[i].collected@ == m0.collected@ + cost
                    &&& final(self).markets@[i].paid@ == m0.paid@
                    &&& final(buyer).lamports == old(buyer).lamports - cost
                    &&& final(buyer).tokens == old(buyer).tokens + tokens_to_buy
                })
            },
    {
        let idx = match self.find_curve(creator) {
            Some(i) => i,
            None => {
                return Err(CurveError::ConfigNotFound);
            },
        };
        let mut m = self.markets[idx];
        let r = m.buy(buyer, tokens_to_buy);
        self.markets.set(idx, m);
        proof {
            if r is Err {
                assert(self.markets@ =~= old(self).markets@);
            }
        }
        r
    }

    /// Sell `tokens_to_sell` base units back to this creator's curve: burn
    /// from the seller, quote against the already-reduced supply, then pay
    /// the seller out of the reserve.  Fails with `ConfigNotFound` when the
    /// creator has no curve; any failure leaves every balance unchanged.
    pub fn sell_creator_token(
        &mut self,
        creator: u64,
        seller: &mut Holding,
        tokens_to_sell: u64,
    ) -> (r: Result<(), CurveError>)
        requires
            old(self).wf(),
        ensures
            final(self).wf(),
            final(self).identities@ == old(self).identities@,
            !old(self).has_curve(creator) ==> r == Err::<(), CurveError>(CurveError::ConfigNotFound)
                && final(self).markets@ == old(self).markets@ && *final(seller) == *old(seller),
            old(self).has_curve(creator) ==> {
                let i = old(self).curve_index(creator);
                let m0 = old(self).markets@[i];
                &&& r == m0.spec_sell_result(*old(seller), tokens_to_sell)
                &&& final(self).markets@.len() == old(self).markets@.len()
                &&& forall|j: int|
                    0 <= j < old(self).markets@.len() && j != i ==> final(self).markets@[j] == old(
                        self,
                    ).markets@[j]
                &&& (r is Err ==> final(self).markets@ == old(self).markets@ && *final(seller)
                    == *old(seller))
                &&& (r is Ok ==> {
                    let payout = m0.spec_sell_quote(tokens_to_sell)->Ok_0;
                    &&& final(self).markets@[i].config == m0.config
                    &&& final(self).markets@[i].supply == m0.supply - tokens_to_sell
                    &&& final(self).markets@[i].reserve == m0.reserve - payout
                    &&& final(self).markets@[i].collected@ == m0.collected@
                    &&& final(self).markets@[i].paid@ == m0.paid@ + payout
                    &&& final(seller).lamports == old(seller).lamports + payout
                    &&& final(seller).tokens == old(seller).tokens - tokens_to_sell
                })
            },
    {
        let idx = match self.find_curve(creator) {
            Some(i) => i,
            None => {
                return Err(CurveError::ConfigNotFound);
            },
        };
        let mut m = self.markets[idx];
        let r = m.sell(seller, tokens_to_sell);
        self.markets.set(idx, m);
        proof {
            if r is Err {
                assert(self.markets@ =~= old(self).markets@);
            }
        }
        r
    }

    /// Read-only buy quote: the identical number `buy_creator_token` would
    /// charge at this instant.  Mutates nothing.
    pub fn get_buying_token_price(&self, creator: u64, tokens_to_buy: u64) -> (r: Result<
        u64,
        CurveError,
    >)
        requires
            self.wf(),
        ensures
            !self.has_curve(creator) ==> r == Err::<u64, CurveError>(CurveError::ConfigNotFound),
            self.has_curve(creator) ==> r == self.curve(creator).spec_buy_quote(tokens_to_buy),
    {
        let idx = match self.find_curve(creator) {
            Some(i) => i,
            None => {
                return Err(CurveError::ConfigNotFound);
            },
        };
        let m = self.markets[idx];
        m.quote_buy(tokens_to_buy)
    }

    /// Read-only sell quote: the identical number `sell_creator_token` would
    /// pay out at this instant.  Mutates nothing.
    pub fn get_selling_return_price(&self, creator: u64, tokens_to_sell: u64) -> (r: Result<
        u64,
        CurveError,
    >)
        requires
            self.wf(),
        ensures
            !self.has_curve(creator) ==> r == Err::<u64, CurveError>(CurveError::ConfigNotFound),
            self.has_curve(creator) ==> r == self.curve(creator).spec_sell_quote(tokens_to_sell),
    {
        let idx = match self.find_curve(creator) {
            Some(i) => i,
            None => {
                return Err(CurveError::ConfigNotFound);
            },
        };
        let m = self.markets[idx];
        m.quote_sell(tokens_to_sell)
    }
}

} // verus!
