//! The ways in which an instruction can be rejected.

use vstd::prelude::*;

verus! {

/// Why an instruction was rejected. A rejection never changes any account.
#[derive(Clone, Copy, Debug, PartialEq, Eq, Structural)]
pub enum LedgerError {
    /// The byte buffer is empty, starts with an unknown tag or is too short.
    DecodeError,
    /// The caller's credential does not entitle it to the instruction.
    Unauthorized,
    /// No account is registered under the target identity.
    NotFound,
    /// An account is already registered under the identity.
    AlreadyExists,
    /// The rate window since the last check-in has not run out yet.
    AlreadyCheckedIn,
    /// All ad views of the current rate window are used up.
    AdLimitReached,
    /// The referrer has referred this identity before.
    AlreadyReferred,
    /// A balance or the account counter would leave its integer range.
    ArithmeticOverflow,
    /// A value does not fit the shape that the operation works on.
    InvalidArgument,
}

} // verus!
