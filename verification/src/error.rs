//! Error kinds reported by the pricing kernel, the identity registry and the
//! buy/sell orchestration.  Every failure is reported to the caller with a
//! specific kind; nothing is retried and nothing wraps silently.

use vstd::prelude::*;

verus! {

/// Failure of a checked computation in the fixed-point arithmetic kernel.
#[derive(Clone, Copy, Debug, PartialEq, Eq, Structural)]
pub enum CustomError {
    /// An intermediate product, sum, the scale factor itself, or the final
    /// narrowing cast exceeded the range of its type.
    MathOverflow,
    /// The sell-side subtraction would have produced a negative quantity.
    MathUnderflow,
}

/// Rejection of an identity record at registration time.
#[derive(Clone, Copy, Debug, PartialEq, Eq, Structural)]
pub enum IdentityError {
    /// The creator name exceeds 50 bytes.
    NameTooLong,
    /// The proof URL exceeds 200 bytes.
    UrlTooLong,
    /// An identity record already exists for this creator.
    AlreadyRegistered,
}

/// Failure of a buy, sell, quote or curve-creation operation.
#[derive(Clone, Copy, Debug, PartialEq, Eq, Structural)]
pub enum CurveError {
    /// A checked kernel computation exceeded its range.
    ArithmeticOverflow,
    /// The sell-side subtraction would have gone negative.
    ArithmeticUnderflow,
    /// The buyer cannot cover the quoted cost.
    InsufficientFunds,
    /// The seller holds fewer tokens than it asked to redeem.
    InsufficientBalance,
    /// The reserve cannot cover the quoted payout.
    ReserveShortfall,
    /// No curve (or no identity) is registered under the given creator.
    ConfigNotFound,
    /// A curve already exists for the given creator.
    ConfigAlreadyExists,
}

impl CurveError {
    /// The orchestration-level kind corresponding to a kernel failure.
    pub open spec fn of_math_spec(e: CustomError) -> CurveError {
        match e {
            CustomError::MathOverflow => CurveError::ArithmeticOverflow,
            CustomError::MathUnderflow => CurveError::ArithmeticUnderflow,
        }
    }

    /// Map a kernel failure to its orchestration-level kind.
    pub fn of_math(e: CustomError) -> (r: CurveError)
        ensures
            r == Self::of_math_spec(e),
    {
        match e {
            CustomError::MathOverflow => CurveError::ArithmeticOverflow,
            CustomError::MathUnderflow => CurveError::ArithmeticUnderflow,
        }
    }
}

} // verus!
