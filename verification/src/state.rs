//! Persistent records of the curve core: a creator's identity record, the
//! per-creator curve configuration, and the plain-value wallet a buyer or
//! seller brings to an operation.

use vstd::prelude::*;
use vstd::string::StrSliceExecFns;

use crate::error::IdentityError;
use crate::pricing::MAX_DECIMALS;

verus! {

/// Largest accepted creator-name length, in characters.
pub const MAX_NAME_LEN: usize = 50;

/// Largest accepted proof-URL length, in characters.
pub const MAX_URL_LEN: usize = 200;

/// A creator's identity record.  One exists per creator key, and a curve can
/// only be created for a registered identity.
#[derive(Clone, Debug)]
pub struct Identity {
    /// The creator's account key.
    pub creator: u64,
    /// Display name, at most [`MAX_NAME_LEN`] characters.
    pub creator_name: String,
    /// Link offered as proof of the creator's identity, at most
    /// [`MAX_URL_LEN`] characters.
    pub proof_url: String,
}

impl Identity {
    /// Both strings are within their length limits.
    pub open spec fn wf(self) -> bool {
        &&& self.creator_name@.len() <= MAX_NAME_LEN
        &&& self.proof_url@.len() <= MAX_URL_LEN
    }

    /// Validate the name and URL lengths and build the record; the name is
    /// checked first, so an over-long name is reported even when the URL is
    /// over-long too.
    pub fn new(creator: u64, creator_name: String, proof_url: String) -> (r: Result<
        Identity,
        IdentityError,
    >)
        ensures
            r is Ok <==> creator_name@.len() <= MAX_NAME_LEN && proof_url@.len() <= MAX_URL_LEN,
            r == Err::<Identity, IdentityError>(IdentityError::NameTooLong) <==> creator_name@.len()
                > MAX_NAME_LEN,
            r == Err::<Identity, IdentityError>(IdentityError::UrlTooLong) <==> creator_name@.len()
                <= MAX_NAME_LEN && proof_url@.len() > MAX_URL_LEN,
            r matches Ok(id) ==> {
                &&& id.creator == creator
                &&& id.creator_name@ == creator_name@
                &&& id.proof_url@ == proof_url@
                &&& id.wf()
            },
    {
        if creator_name.as_str().unicode_len() > MAX_NAME_LEN {
            return Err(IdentityError::NameTooLong);
        }
        if proof_url.as_str().unicode_len() > MAX_URL_LEN {
            return Err(IdentityError::UrlTooLong);
        }
        Ok(Identity { creator, creator_name, proof_url })
    }
}

/// The persistent configuration of one creator's curve.  `base_price` and
/// `slope` are fixed at creation and never mutated; the authoritative
/// circulating supply lives outside this record and `total_supply` is only
/// the informational snapshot taken at creation.
#[derive(Clone, Copy, Debug, PartialEq, Eq, Structural)]
pub struct CreatorToken {
    /// Key of the owning identity record.
    pub creator: u64,
    /// Key of the external fungible-unit ledger this curve prices.
    pub mint: u64,
    /// Key of the value reserve that backs redemptions.
    pub vault: u64,
    /// Price, in reserve units per whole token, when the supply is zero.
    pub base_price: u64,
    /// Marginal price increase per whole token of supply.
    pub slope: u64,
    /// Number of fractional digits of the token's base unit, at most
    /// [`MAX_DECIMALS`].
    pub decimals: u8,
    /// Supply snapshot taken at creation; not authoritative.
    pub total_supply: u64,
    /// Creation timestamp.
    pub created_at: i64,
}

impl CreatorToken {
    /// The decimals field is within the range the pricing kernel supports.
    pub open spec fn wf(self) -> bool {
        self.decimals <= MAX_DECIMALS
    }
}

/// What one participant holds: reserve units to pay with and token base
/// units of one curve's mint.
#[derive(Clone, Copy, Debug, PartialEq, Eq, Structural)]
pub struct Holding {
    /// Reserve units (payment side).
    pub lamports: u64,
    /// Token base units of the curve's mint.
    pub tokens: u64,
}

} // verus!
