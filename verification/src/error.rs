//! The errors a ledger call can return.

use vstd::prelude::*;

verus! {

/// Every way a ledger call can be rejected. Each call either succeeds or
/// returns one of these; a rejected call leaves the ledger unchanged.
#[derive(Clone, Copy, Debug, PartialEq, Eq, Structural)]
pub enum ContractError {
    /// The caller is not the named payee, or the named payee is not in the
    /// roster.
    Unauthorized,
    /// The payee and share lists handed to initialization differ in length.
    InvalidLength,
    /// A share weight handed to initialization is not positive.
    InvalidShares,
    /// A query names an address outside the roster.
    NotFound,
    /// Nothing is currently due to the payee; expected when releasing twice
    /// with no deposit in between.
    NoPaymentDue,
    /// A checked arithmetic step failed: the ledger is corrupted or a value
    /// is beyond the representable range.
    ArithmeticOverflow,
    /// The observed pool balance holds no currency at all.
    InvalidBalance,
}

} // verus!
