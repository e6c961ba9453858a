//! The records of the registry: domains and tokens.
//!
//! A record is checked when it is made. A domain's owner, symbol and name
//! never change afterwards; only its token counter moves, by one for each
//! token created in the domain. A token never changes.

use crate::allocator::get_next_token_id;
use crate::types::{AccountId, Balance, Error, TokenId};
use vstd::prelude::*;

verus! {

/// A symbol is accepted if it has more than two bytes.
pub open spec fn valid_symbol(symbol: Seq<u8>) -> bool {
    symbol.len() > 2
}

/// A name is accepted if it has more than three bytes.
pub open spec fn valid_name(name: Seq<u8>) -> bool {
    name.len() > 3
}

/// A base URI is accepted if it has more than three bytes.
pub open spec fn valid_base_uri(base_uri: Seq<u8>) -> bool {
    base_uri.len() > 3
}

/// What a domain record holds.
pub struct DomainView {
    pub symbol: Seq<u8>,
    pub name: Seq<u8>,
    pub next_token_id: TokenId,
    pub owner: AccountId,
}

impl DomainView {
    /// The record of a domain in which no token has been created yet.
    pub open spec fn fresh(owner: AccountId, symbol: Seq<u8>, name: Seq<u8>) -> DomainView {
        DomainView { symbol, name, next_token_id: 0, owner }
    }

    /// The symbol and the name are those of an accepted domain.
    pub open spec fn valid(self) -> bool {
        valid_symbol(self.symbol) && valid_name(self.name)
    }

    /// Why a domain with these fields is refused, if it is.
    pub open spec fn refusal(symbol: Seq<u8>, name: Seq<u8>) -> Option<Error> {
        if !valid_symbol(symbol) {
            Some(Error::InvalidSymbol)
        } else if !valid_name(name) {
            Some(Error::InvalidName)
        } else {
            None
        }
    }

    /// The same domain after one more token was created in it.
    pub open spec fn with_next_token(self) -> DomainView
        recommends
            self.next_token_id < TokenId::MAX,
    {
        DomainView { next_token_id: (self.next_token_id + 1) as TokenId, ..self }
    }
}

/// What a token record holds.
pub struct TokenView {
    pub base_uri: Seq<u8>,
    pub total_supply: Balance,
    pub creator: AccountId,
}

impl TokenView {
    /// The supply is not zero and the base URI is one of an accepted token.
    pub open spec fn valid(self) -> bool {
        self.total_supply > 0 && valid_base_uri(self.base_uri)
    }

    /// Why a token with these fields is refused, if it is.
    pub open spec fn refusal(total_supply: Balance, base_uri: Seq<u8>) -> Option<Error> {
        if total_supply == 0 {
            Some(Error::InvalidTotalSupply)
        } else if !valid_base_uri(base_uri) {
            Some(Error::InvalidBaseUri)
        } else {
            None
        }
    }
}

/// Judges the fields of a domain before it is made: a symbol of two bytes or
/// fewer is refused with `InvalidSymbol`; after that, a name of three bytes
/// or fewer with `InvalidName`.
pub fn check_domain_fields(symbol: &[u8], name: &[u8]) -> (result: Result<(), Error>)
    ensures
        result == match DomainView::refusal(symbol@, name@) {
            Some(error) => Err::<(), Error>(error),
            None => Ok::<(), Error>(()),
        },
{
    if symbol.len() <= 2 {
        Err(Error::InvalidSymbol)
    } else if name.len() <= 3 {
        Err(Error::InvalidName)
    } else {
        Ok(())
    }
}

/// Judges the fields of a token before it is made: a supply of zero is
/// refused with `InvalidTotalSupply`; after that, a base URI of three bytes or
/// fewer with `InvalidBaseUri`.
pub fn check_token_fields(total_supply: Balance, base_uri: &[u8]) -> (result: Result<(), Error>)
    ensures
        result == match TokenView::refusal(total_supply, base_uri@) {
            Some(error) => Err::<(), Error>(error),
            None => Ok::<(), Error>(()),
        },
{
    if total_supply == 0 {
        Err(Error::InvalidTotalSupply)
    } else if base_uri.len() <= 3 {
        Err(Error::InvalidBaseUri)
    } else {
        Ok(())
    }
}

/// A namespace for tokens, owned by one account.
#[derive(Debug, PartialEq, Eq)]
pub struct Domain {
    symbol: Vec<u8>,
    name: Vec<u8>,
    next_token_id: TokenId,
    owner: AccountId,
}

impl View for Domain {
    type V = DomainView;

    closed spec fn view(&self) -> DomainView {
        DomainView {
            symbol: self.symbol@,
            name: self.name@,
            next_token_id: self.next_token_id,
            owner: self.owner,
        }
    }
}

impl Clone for Domain {
    fn clone(&self) -> (copy: Domain)
        ensures
            copy@ == self@,
    {
        proof {
            use_type_invariant(self);
        }
        let symbol = self.symbol.clone();
        let name = self.name.clone();
        assert(symbol@ =~= self.symbol@);
        assert(name@ =~= self.name@);
        Domain { symbol, name, next_token_id: self.next_token_id, owner: self.owner }
    }
}

impl Domain {
    #[verifier::type_invariant]
    spec fn accepted(&self) -> bool {
        valid_symbol(self.symbol@) && valid_name(self.name@)
    }

    /// Makes the record of a new domain of `owner`, with its token counter at
    /// zero. A symbol of two bytes or fewer is refused with `InvalidSymbol`;
    /// after that, a name of three bytes or fewer with `InvalidName`.
    pub fn new(owner: AccountId, symbol: Vec<u8>, name: Vec<u8>) -> (result: Result<Domain, Error>)
        ensures
            match result {
                Ok(domain) => DomainView::refusal(symbol@, name@) is None && domain@
                    == DomainView::fresh(owner, symbol@, name@),
                Err(error) => DomainView::refusal(symbol@, name@) == Some(error),
            },
    {
        Domain::from_parts(symbol, name, 0, owner)
    }

    /// Makes the record of a domain from all that it holds, as when a record
    /// that was stored is read back. The symbol and the name are judged as
    /// for a new domain.
    pub fn from_parts(
        symbol: Vec<u8>,
        name: Vec<u8>,
        next_token_id: TokenId,
        owner: AccountId,
    ) -> (result: Result<Domain, Error>)
        ensures
            match result {
                Ok(domain) => DomainView::refusal(symbol@, name@) is None && domain@ == (
                DomainView { symbol: symbol@, name: name@, next_token_id, owner }),
                Err(error) => DomainView::refusal(symbol@, name@) == Some(error),
            },
    {
        match check_domain_fields(symbol.as_slice(), name.as_slice()) {
            Ok(()) => Ok(Domain { symbol, name, next_token_id, owner }),
            Err(error) => Err(error),
        }
    }

    /// The symbol, of more than two bytes.
    pub fn symbol(&self) -> (symbol: &Vec<u8>)
        ensures
            symbol@ == self@.symbol,
            valid_symbol(symbol@),
    {
        proof {
            use_type_invariant(self);
        }
        &self.symbol
    }

    /// The name, of more than three bytes.
    pub fn name(&self) -> (name: &Vec<u8>)
        ensures
            name@ == self@.name,
            valid_name(name@),
    {
        proof {
            use_type_invariant(self);
        }
        &self.name
    }

    /// The identifier of the token created last in this domain, or zero if
    /// there is none yet.
    pub fn next_token_id(&self) -> (id: TokenId)
        ensures
            id == self@.next_token_id,
    {
        self.next_token_id
    }

    /// The account that owns this domain.
    pub fn owner(&self) -> (owner: AccountId)
        ensures
            owner == self@.owner,
    {
        self.owner
    }

    /// Accepts `who` if it is the owner, and refuses any other account with
    /// `NotDomainOwner`.
    pub fn ensure_owner(&self, who: AccountId) -> (result: Result<(), Error>)
        ensures
            who == self@.owner ==> result == Ok::<(), Error>(()),
            who != self@.owner ==> result == Err::<(), Error>(Error::NotDomainOwner),
    {
        if self.owner == who {
            Ok(())
        } else {
            Err(Error::NotDomainOwner)
        }
    }

    /// Issues the identifier of the next token of this domain and moves the
    /// counter to it. With the counter at the end of its range the domain
    /// stays as it is and the call fails with `TokenIdOverflow`.
    pub fn allocate_token_id(&mut self) -> (result: Result<TokenId, Error>)
        ensures
            old(self)@.next_token_id < TokenId::MAX ==> result == Ok::<TokenId, Error>(
                final(self)@.next_token_id,
            ) && final(self)@ == old(self)@.with_next_token(),
            old(self)@.next_token_id == TokenId::MAX ==> result == Err::<TokenId, Error>(
                Error::TokenIdOverflow,
            ) && final(self)@ == old(self)@,
    {
        proof {
            use_type_invariant(&*self);
        }
        let mut counter: TokenId = self.next_token_id;
        let result = get_next_token_id(&mut counter);
        self.next_token_id = counter;
        result
    }
}

/// A kind of asset within a domain.
#[derive(Debug, PartialEq, Eq)]
pub struct Token {
    base_uri: Vec<u8>,
    total_supply: Balance,
    creator: AccountId,
}

impl View for Token {
    type V = TokenView;

    closed spec fn view(&self) -> TokenView {
        TokenView {
            base_uri: self.base_uri@,
            total_supply: self.total_supply,
            creator: self.creator,
        }
    }
}

impl Clone for Token {
    fn clone(&self) -> (copy: Token)
        ensures
            copy@ == self@,
    {
        proof {
            use_type_invariant(self);
        }
        let base_uri = self.base_uri.clone();
        assert(base_uri@ =~= self.base_uri@);
        Token { base_uri, total_supply: self.total_supply, creator: self.creator }
    }
}

impl Token {
    #[verifier::type_invariant]
    spec fn accepted(&self) -> bool {
        self.total_supply > 0 && valid_base_uri(self.base_uri@)
    }

    /// Makes the record of a token. A supply of zero is refused with
    /// `InvalidTotalSupply`; after that, a base URI of three bytes or fewer
    /// with `InvalidBaseUri`.
    pub fn new(creator: AccountId, total_supply: Balance, base_uri: Vec<u8>) -> (result: Result<
        Token,
        Error,
    >)
        ensures
            match result {
                Ok(token) => TokenView::refusal(total_supply, base_uri@) is None && token@ == (
                TokenView { base_uri: base_uri@, total_supply, creator }),
                Err(error) => TokenView::refusal(total_supply, base_uri@) == Some(error),
            },
    {
        match check_token_fields(total_supply, base_uri.as_slice()) {
            Ok(()) => Ok(Token { base_uri, total_supply, creator }),
            Err(error) => Err(error),
        }
    }

    /// The base URI, of more than three bytes.
    pub fn base_uri(&self) -> (base_uri: &Vec<u8>)
        ensures
            base_uri@ == self@.base_uri,
            valid_base_uri(base_uri@),
    {
        proof {
            use_type_invariant(self);
        }
        &self.base_uri
    }

    /// The quantity minted when the token was created. Later burns do not
    /// change it: it is not the quantity in circulation.
    pub fn total_supply(&self) -> (total_supply: Balance)
        ensures
            total_supply == self@.total_supply,
            total_supply > 0,
    {
        proof {
            use_type_invariant(self);
        }
        self.total_supply
    }

    /// The account to which the supply was minted.
    pub fn creator(&self) -> (creator: AccountId)
        ensures
            creator == self@.creator,
    {
        self.creator
    }
}

} // verus!
