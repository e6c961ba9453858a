//! Identifiers, quantities, errors and events shared by the whole ledger.

use vstd::prelude::*;

verus! {

/// The identity of an account, as the caller of an operation or as a holder.
pub type AccountId = u64;

/// The identifier of a domain: unique in a ledger and never reused.
pub type DomainId = u64;

/// The identifier of a token: unique within its domain.
pub type TokenId = u64;

/// A quantity of a token.
pub type Balance = u64;

/// Why an operation was refused. A refused operation changes nothing.
#[derive(Clone, Copy, Debug, PartialEq, Eq, Structural)]
pub enum Error {
    /// The domain counter cannot be incremented.
    DomainIdOverflow,
    /// The token counter of the domain cannot be incremented.
    TokenIdOverflow,
    /// The domain does not exist.
    InvalidDomain,
    /// The caller is not the owner of the domain.
    NotDomainOwner,
    /// The symbol has two bytes or fewer.
    InvalidSymbol,
    /// The name has three bytes or fewer.
    InvalidName,
    /// The total supply is zero.
    InvalidTotalSupply,
    /// The quantity to burn is zero.
    InvalidQuantityToBurn,
    /// The base URI has three bytes or fewer.
    InvalidBaseUri,
    /// A balance would exceed its range, upwards on a mint or below zero on a burn.
    BalanceOverflow,
}

/// What a successful operation reports.
#[derive(Clone, Copy, Debug, PartialEq, Eq, Structural)]
pub enum Event {
    /// A domain was created: its owner and its identifier.
    DomainCreated(AccountId, DomainId),
    /// A token was created: the recipient of the supply, the domain, the token
    /// and the quantity minted.
    TokenCreated(AccountId, DomainId, TokenId, Balance),
    /// Tokens were burnt: the holder, the domain, the token and the quantity.
    TokensBurnt(AccountId, DomainId, TokenId, Balance),
}

} // verus!
