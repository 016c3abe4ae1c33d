//! The error space that the contracts report to their callers.

use vstd::prelude::*;

verus! {

/// Why a contract call was refused.
#[derive(Copy, Clone, Debug, PartialEq, Eq, Structural)]
pub enum Error {
    /// An exact arithmetic result does not exist or does not fit.
    MathOverflow,
    /// A participant mask is malformed, or names a signer that is not there.
    InvalidSignature,
    /// The challenge window does not admit the attempted action.
    ChallengeActive,
}

} // verus!
