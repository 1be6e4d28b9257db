//! Principal identities.

use vstd::prelude::*;

verus! {

/// The identity of a principal that invokes operations: the admin, a poll
/// owner, or a voter.
///
/// An identity is a 256-bit account value, held as two 128-bit halves so
/// that equality of identities is plain structural equality on integers.
#[derive(Clone, Copy, PartialEq, Eq, Structural, Debug, Hash)]
pub struct AccountId {
    /// The high 16 bytes of the account value.
    pub hi: u128,
    /// The low 16 bytes of the account value.
    pub lo: u128,
}

impl AccountId {
    /// Builds an identity from its two halves.
    pub fn new(hi: u128, lo: u128) -> (r: AccountId)
        ensures
            r == (AccountId { hi, lo }),
    {
        AccountId { hi, lo }
    }
}

} // verus!
