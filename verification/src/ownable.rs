//! Ownership by a single account.

use vstd::prelude::*;

verus! {

/// Something that belongs to one account at a time.
///
/// Nothing is stated of an implementation beyond the types: which account
/// owns at first, and what `set_owner` hands back, is its own choice.
pub trait Ownable<AccountId> {
    /// The account that owns it.
    fn owner() -> AccountId;

    /// Makes `owner` the owner.
    fn set_owner(owner: &AccountId) -> AccountId;
}

} // verus!
