//! A per-creator fungible-token bonding curve.
//!
//! The pricing engine treats the token price as an affine function of the
//! circulating supply and charges (or pays out) the integral of that price
//! over the supply interval an operation moves through.  All arithmetic is
//! carried out in a doubled-width intermediate type and checked: an operation
//! that would overflow reports an error instead of wrapping.
//!
//! The market module sequences the externally visible steps of issuance
//! (collect payment, then raise supply) and redemption (lower supply, then
//! pay out of the reserve) over a plain-value model of the host ledger, and
//! the registry keys one curve per creator identity.

pub mod error;
pub mod market;
pub mod pricing;
pub mod registry;
pub mod state;
