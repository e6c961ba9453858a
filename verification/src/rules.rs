//! The rules of the ledger, on plain values.
//!
//! Each function here decides one operation from what the ledger holds for
//! it: a counter, the record of a domain, a balance. It reads no table and
//! writes none: its caller hands it what was read and stores what comes back.
//! `Ledger` applies these rules to tables in memory; a ledger that keeps its
//! tables elsewhere applies the same rules to what it reads from there.
//!
//! For each rule a spec function says what it decides, and the states of a
//! ledger are defined over those in `model`.

use crate::allocator::get_next_domain_id;
use crate::balance::{burnt, credit, debit, minted};
use crate::registry::{Domain, DomainView, Token, TokenView};
use crate::types::{AccountId, Balance, DomainId, Error, Event, TokenId};
use vstd::prelude::*;

verus! {

/// Whether `who` owns the domain. Nobody owns a domain that does not exist.
pub open spec fn owned_by(domain: Option<DomainView>, who: AccountId) -> bool {
    domain matches Some(record) && record.owner == who
}

/// The identifier that the next token of the domain gets, if the domain
/// exists and has one left.
pub open spec fn token_id_to_come(domain: Option<DomainView>) -> Option<TokenId> {
    match domain {
        Some(record) => if record.next_token_id < TokenId::MAX {
            Some((record.next_token_id + 1) as TokenId)
        } else {
            None
        },
        None => None,
    }
}

/// What a mint of `quantity` makes of a balance `held`: refused with
/// `InvalidDomain` where the domain does not exist, and with
/// `BalanceOverflow` where the sum exceeds the range of a balance.
pub open spec fn mint_rule(domain_exists: bool, held: Balance, quantity: Balance) -> Result<
    Balance,
    Error,
> {
    if domain_exists {
        minted(held, quantity)
    } else {
        Err(Error::InvalidDomain)
    }
}

/// What a burn of `quantity` makes of a balance `held`: refused with
/// `InvalidDomain` where the domain does not exist, and with
/// `BalanceOverflow` where more is burnt than is held.
pub open spec fn burn_rule(domain_exists: bool, held: Balance, quantity: Balance) -> Result<
    Balance,
    Error,
> {
    if domain_exists {
        burnt(held, quantity)
    } else {
        Err(Error::InvalidDomain)
    }
}

/// The identifier that a new domain gets while the counter of domains stands
/// at `next_domain_id`: refused with `InvalidSymbol` or `InvalidName` where a
/// field is too short, and after that with `DomainIdOverflow` where the
/// counter is at the end of its range.
pub open spec fn create_domain_rule(
    next_domain_id: DomainId,
    symbol: Seq<u8>,
    name: Seq<u8>,
) -> Result<DomainId, Error> {
    match DomainView::refusal(symbol, name) {
        Some(error) => Err(error),
        None => if next_domain_id < DomainId::MAX {
            Ok(next_domain_id)
        } else {
            Err(Error::DomainIdOverflow)
        },
    }
}

/// The identifier that a new token gets and what its recipient holds of it
/// afterwards, where the recipient holds `held` of it before. Refused, in
/// this order: with `InvalidTotalSupply` or `InvalidBaseUri` where a field is
/// not accepted; with `NotDomainOwner` where `who` does not own the domain;
/// with `TokenIdOverflow` where the domain has no identifier left; with
/// `BalanceOverflow` where the recipient cannot hold the supply.
pub open spec fn create_token_rule(
    who: AccountId,
    domain: Option<DomainView>,
    total_supply: Balance,
    base_uri: Seq<u8>,
    held: Balance,
) -> Result<(TokenId, Balance), Error> {
    match TokenView::refusal(total_supply, base_uri) {
        Some(error) => Err(error),
        None => if !owned_by(domain, who) {
            Err(Error::NotDomainOwner)
        } else {
            match token_id_to_come(domain) {
                None => Err(Error::TokenIdOverflow),
                Some(token_id) => match minted(held, total_supply) {
                    Ok(balance) => Ok((token_id, balance)),
                    Err(error) => Err(error),
                },
            }
        },
    }
}

/// What the holder has left after `quantity` is burnt on the word of `who`,
/// where the holder has `held` before. Refused, in this order: with
/// `InvalidQuantityToBurn` where the quantity is zero; with `NotDomainOwner`
/// where `who` does not own the domain; with `BalanceOverflow` where more is
/// burnt than is held.
pub open spec fn burn_tokens_rule(
    who: AccountId,
    domain: Option<DomainView>,
    quantity: Balance,
    held: Balance,
) -> Result<Balance, Error> {
    if quantity == 0 {
        Err(Error::InvalidQuantityToBurn)
    } else if !owned_by(domain, who) {
        Err(Error::NotDomainOwner)
    } else {
        burn_rule(domain is Some, held, quantity)
    }
}

/// All that comes of creating a domain.
#[derive(Debug, PartialEq, Eq)]
pub struct CreatedDomain {
    /// The identifier of the new domain.
    pub domain_id: DomainId,
    /// The record to store under that identifier.
    pub domain: Domain,
    /// What to report.
    pub event: Event,
}

/// All that comes of creating a token.
#[derive(Debug, PartialEq, Eq)]
pub struct CreatedToken {
    /// The identifier of the new token within its domain.
    pub token_id: TokenId,
    /// The record to store under that identifier.
    pub token: Token,
    /// What the recipient of the supply holds of the token from now on.
    pub balance: Balance,
    /// What to report.
    pub event: Event,
}

/// All that comes of burning tokens.
#[derive(Clone, Copy, Debug, PartialEq, Eq, Structural)]
pub struct BurntTokens {
    /// What the holder has of the token from now on.
    pub balance: Balance,
    /// What to report.
    pub event: Event,
}

/// Decides a mint of `quantity` onto the balance `held`, and returns the new
/// balance.
///
/// Fails with `InvalidDomain` where the domain does not exist, and with
/// `BalanceOverflow` where the sum exceeds the range of a balance.
pub fn mint(domain_exists: bool, held: Balance, quantity: Balance) -> (result: Result<
    Balance,
    Error,
>)
    ensures
        result == mint_rule(domain_exists, held, quantity),
{
    if !domain_exists {
        return Err(Error::InvalidDomain);
    }
    credit(held, quantity)
}

/// Decides a burn of `quantity` from the balance `held`, and returns the new
/// balance.
///
/// Fails with `InvalidDomain` where the domain does not exist, and with
/// `BalanceOverflow` where more is burnt than is held.
pub fn burn(domain_exists: bool, held: Balance, quantity: Balance) -> (result: Result<
    Balance,
    Error,
>)
    ensures
        result == burn_rule(domain_exists, held, quantity),
{
    if !domain_exists {
        return Err(Error::InvalidDomain);
    }
    debit(held, quantity)
}

/// Decides the creation of a domain of `owner` while the counter of domains
/// stands at `next_domain_id`. Where it succeeds the counter moves on by one.
///
/// Fails, in this order, with `InvalidSymbol` where the symbol has two bytes
/// or fewer, with `InvalidName` where the name has three bytes or fewer, and
/// with `DomainIdOverflow` where no identifier is left. The counter then
/// stays where it was.
pub fn create_domain(
    next_domain_id: &mut DomainId,
    owner: AccountId,
    symbol: Vec<u8>,
    name: Vec<u8>,
) -> (result: Result<CreatedDomain, Error>)
    ensures
        match create_domain_rule(*old(next_domain_id), symbol@, name@) {
            Ok(domain_id) => {
                &&& result matches Ok(created)
                &&& created.domain_id == domain_id
                &&& created.domain@ == DomainView::fresh(owner, symbol@, name@)
                &&& created.event == Event::DomainCreated(owner, domain_id)
                &&& *final(next_domain_id) == domain_id + 1
            },
            Err(error) => {
                &&& result matches Err(refusal)
                &&& refusal == error
                &&& *final(next_domain_id) == *old(next_domain_id)
            },
        },
{
    let domain = match Domain::new(owner, symbol, name) {
        Ok(domain) => domain,
        Err(error) => {
            return Err(error);
        },
    };
    let domain_id = match get_next_domain_id(next_domain_id) {
        Ok(domain_id) => domain_id,
        Err(error) => {
            return Err(error);
        },
    };
    Ok(CreatedDomain { domain_id, domain, event: Event::DomainCreated(owner, domain_id) })
}

/// The identifier that the next token of `domain` gets, if the domain exists
/// and has one left. It tells which balance `create_token` is to be given.
pub fn next_token_id(domain: Option<&Domain>) -> (token_id: Option<TokenId>)
    ensures
        token_id == token_id_to_come(
            match domain {
                Some(record) => Some(record@),
                None => None,
            },
        ),
{
    match domain {
        Some(record) => record.next_token_id().checked_add(1),
        None => None,
    }
}

/// Decides the creation of a token in `domain`, called by `who`, with the
/// whole supply for `creator`, who holds `held` of the token to come. Where
/// it succeeds the counter of the domain moves on by one.
///
/// Fails, in this order, with `InvalidTotalSupply` where the supply is zero,
/// with `InvalidBaseUri` where the base URI has three bytes or fewer, with
/// `NotDomainOwner` where `who` does not own the domain or there is none, with
/// `TokenIdOverflow` where the domain has no identifier left, and with
/// `BalanceOverflow` where `creator` cannot hold the supply. The domain then
/// stays as it was.
pub fn create_token(
    who: AccountId,
    domain_id: DomainId,
    domain: Option<&mut Domain>,
    creator: AccountId,
    total_supply: Balance,
    base_uri: Vec<u8>,
    held: Balance,
) -> (result: Result<CreatedToken, Error>)
    ensures
        match create_token_rule(
            who,
            match domain {
                Some(record) => Some(record@),
                None => None,
            },
            total_supply,
            base_uri@,
            held,
        ) {
            Ok((token_id, balance)) => {
                &&& result matches Ok(created)
                &&& created.token_id == token_id
                &&& created.token@ == (TokenView { base_uri: base_uri@, total_supply, creator })
                &&& created.balance == balance
                &&& created.event == Event::TokenCreated(creator, domain_id, token_id, total_supply)
                &&& domain matches Some(record)
                &&& final(record)@ == record@.with_next_token()
            },
            Err(error) => {
                &&& result matches Err(refusal)
                &&& refusal == error
                &&& domain matches Some(record) ==> final(record)@ == record@
            },
        },
{
    let token = match Token::new(creator, total_supply, base_uri) {
        Ok(token) => token,
        Err(error) => {
            return Err(error);
        },
    };
    let record = match domain {
        Some(record) => record,
        None => {
            return Err(Error::NotDomainOwner);
        },
    };
    match record.ensure_owner(who) {
        Ok(()) => {},
        Err(error) => {
            return Err(error);
        },
    }
    let token_id = match next_token_id(Some(&*record)) {
        Some(token_id) => token_id,
        None => {
            return Err(Error::TokenIdOverflow);
        },
    };
    // The counter moves only when the mint is known to succeed as well.
    let balance = match credit(held, total_supply) {
        Ok(balance) => balance,
        Err(error) => {
            return Err(error);
        },
    };
    // An identifier is left, so this issues `token_id`.
    let _ = record.allocate_token_id();
    Ok(
        CreatedToken {
            token_id,
            token,
            balance,
            event: Event::TokenCreated(creator, domain_id, token_id, total_supply),
        },
    )
}

/// Decides the burning of `quantity` of a token from `victim`, who holds
/// `held` of it, on the word of `who`.
///
/// Fails, in this order, with `InvalidQuantityToBurn` where the quantity is
/// zero, with `NotDomainOwner` where `who` does not own the domain or there
/// is none, and with `BalanceOverflow` where `victim` holds less than
/// `quantity`.
pub fn burn_tokens(
    who: AccountId,
    domain_id: DomainId,
    token_id: TokenId,
    domain: Option<&Domain>,
    victim: AccountId,
    quantity: Balance,
    held: Balance,
) -> (result: Result<BurntTokens, Error>)
    ensures
        result == match burn_tokens_rule(
            who,
            match domain {
                Some(record) => Some(record@),
                None => None,
            },
            quantity,
            held,
        ) {
            Ok(balance) => Ok::<BurntTokens, Error>(
                BurntTokens {
                    balance,
                    event: Event::TokensBurnt(victim, domain_id, token_id, quantity),
                },
            ),
            Err(error) => Err::<BurntTokens, Error>(error),
        },
{
    if quantity == 0 {
        return Err(Error::InvalidQuantityToBurn);
    }
    let record = match domain {
        Some(record) => record,
        None => {
            return Err(Error::NotDomainOwner);
        },
    };
    match record.ensure_owner(who) {
        Ok(()) => {},
        Err(error) => {
            return Err(error);
        },
    }
    match burn(true, held, quantity) {
        Ok(balance) => Ok(
            BurntTokens {
                balance,
                event: Event::TokensBurnt(victim, domain_id, token_id, quantity),
            },
        ),
        Err(error) => Err(error),
    }
}

} // verus!
