//! The ledger as a mathematical state, and what each operation does to it.
//!
//! An operation either succeeds, reports a value and moves the ledger to a new
//! state, or it is refused with an error and leaves the state as it was. What
//! an operation decides is said by its rule in `rules`; here stands what it
//! reads from the state for the rule and what it writes.

use crate::registry::{DomainView, TokenView};
use crate::rules::{
    burn_rule, burn_tokens_rule, create_domain_rule, create_token_rule, mint_rule, owned_by,
    token_id_to_come,
};
use crate::types::{AccountId, Balance, DomainId, Error, Event, TokenId};
use vstd::prelude::*;

verus! {

/// The state of a ledger.
pub struct LedgerView {
    /// The identifier that the next domain will get.
    pub next_domain_id: DomainId,
    /// The domains, by identifier.
    pub domains: Map<DomainId, DomainView>,
    /// The tokens, by domain and token identifier.
    pub tokens: Map<(DomainId, TokenId), TokenView>,
    /// The balance of every holder in every token of every domain. The map is
    /// total: what was never minted is held at zero.
    pub balances: Map<(AccountId, DomainId, TokenId), Balance>,
}

/// How an operation ends: what it reports, and the state that it leaves.
pub struct Outcome<T> {
    pub result: Result<T, Error>,
    pub state: LedgerView,
}

impl LedgerView {
    /// The ledger in which nothing has happened yet.
    pub open spec fn empty() -> LedgerView {
        LedgerView {
            next_domain_id: 0,
            domains: Map::empty(),
            tokens: Map::empty(),
            balances: Map::total(|key: (AccountId, DomainId, TokenId)| 0 as Balance),
        }
    }

    /// What `holder` has of token `token_id` of domain `domain_id`.
    pub open spec fn balance(
        self,
        holder: AccountId,
        domain_id: DomainId,
        token_id: TokenId,
    ) -> Balance {
        self.balances[(holder, domain_id, token_id)]
    }

    /// The record of the domain `domain_id`, if the domain exists.
    pub open spec fn domain(self, domain_id: DomainId) -> Option<DomainView> {
        if self.domains.contains_key(domain_id) {
            Some(self.domains[domain_id])
        } else {
            None
        }
    }

    /// Whether `who` owns the domain `domain_id`. Nobody owns a domain that
    /// does not exist.
    pub open spec fn owns(self, who: AccountId, domain_id: DomainId) -> bool {
        owned_by(self.domain(domain_id), who)
    }

    /// What `holder` has of the token that would be created next in
    /// `domain_id`. It is zero unless something was minted to that identifier
    /// before there was a token of it.
    pub open spec fn held_of_token_to_come(self, holder: AccountId, domain_id: DomainId) -> Balance {
        match token_id_to_come(self.domain(domain_id)) {
            Some(token_id) => self.balance(holder, domain_id, token_id),
            None => 0,
        }
    }

    /// The same ledger with one balance replaced.
    pub open spec fn with_balance(
        self,
        holder: AccountId,
        domain_id: DomainId,
        token_id: TokenId,
        balance: Balance,
    ) -> LedgerView {
        LedgerView { balances: self.balances.insert((holder, domain_id, token_id), balance), ..self }
    }

    /// The outcome of an operation that is refused with `error`.
    pub open spec fn refused<T>(self, error: Error) -> Outcome<T> {
        Outcome { result: Err(error), state: self }
    }

    /// What holds of every ledger that operations have produced from the
    /// empty one.
    ///
    /// - The domains are those with an identifier below the counter.
    /// - The tokens of a domain are those with an identifier from one up to
    ///   the domain's counter.
    /// - Every record has fields that are accepted at creation.
    /// - Every balance is defined, and there is none in a domain that does
    ///   not exist.
    pub open spec fn inv(self) -> bool {
        &&& forall|d: DomainId| #[trigger]
            self.domains.contains_key(d) <==> d < self.next_domain_id
        &&& forall|d: DomainId| #[trigger]
            self.domains.contains_key(d) ==> self.domains[d].valid()
        &&& forall|d: DomainId, t: TokenId| #[trigger]
            self.tokens.contains_key((d, t)) <==> self.domains.contains_key(d) && 1 <= t
                <= self.domains[d].next_token_id
        &&& forall|d: DomainId, t: TokenId| #[trigger]
            self.tokens.contains_key((d, t)) ==> self.tokens[(d, t)].valid()
        &&& forall|h: AccountId, d: DomainId, t: TokenId| #[trigger]
            self.balances.contains_key((h, d, t))
        &&& forall|h: AccountId, d: DomainId, t: TokenId|
            !self.domains.contains_key(d) ==> #[trigger] self.balances[(h, d, t)] == 0
    }

    /// Minting: `quantity` is added to what `to` has of the token.
    ///
    /// Refused with `InvalidDomain` where the domain does not exist, and with
    /// `BalanceOverflow` where the sum exceeds the range of a balance. Reports
    /// the new balance.
    pub open spec fn mint(
        self,
        to: AccountId,
        domain_id: DomainId,
        token_id: TokenId,
        quantity: Balance,
    ) -> Outcome<Balance> {
        match mint_rule(
            self.domains.contains_key(domain_id),
            self.balance(to, domain_id, token_id),
            quantity,
        ) {
            Ok(balance) => Outcome {
                result: Ok(balance),
                state: self.with_balance(to, domain_id, token_id, balance),
            },
            Err(error) => self.refused(error),
        }
    }

    /// Burning: `quantity` is taken from what `from` has of the token.
    ///
    /// Refused with `InvalidDomain` where the domain does not exist, and with
    /// `BalanceOverflow` where `from` has less than `quantity`. Reports the
    /// new balance.
    pub open spec fn burn(
        self,
        from: AccountId,
        domain_id: DomainId,
        token_id: TokenId,
        quantity: Balance,
    ) -> Outcome<Balance> {
        match burn_rule(
            self.domains.contains_key(domain_id),
            self.balance(from, domain_id, token_id),
            quantity,
        ) {
            Ok(balance) => Outcome {
                result: Ok(balance),
                state: self.with_balance(from, domain_id, token_id, balance),
            },
            Err(error) => self.refused(error),
        }
    }

    /// Creating a domain owned by `owner`.
    ///
    /// Refused, in this order, with `InvalidSymbol` or `InvalidName` where a
    /// field is too short, and with `DomainIdOverflow` where the counter is at
    /// the end of its range. Otherwise the domain gets the identifier at which
    /// the counter stands, the counter moves on by one, and the new domain has
    /// no tokens.
    pub open spec fn create_domain(
        self,
        owner: AccountId,
        symbol: Seq<u8>,
        name: Seq<u8>,
    ) -> Outcome<Event> {
        match create_domain_rule(self.next_domain_id, symbol, name) {
            Ok(domain_id) => Outcome {
                result: Ok(Event::DomainCreated(owner, domain_id)),
                state: LedgerView {
                    next_domain_id: (domain_id + 1) as DomainId,
                    domains: self.domains.insert(domain_id, DomainView::fresh(owner, symbol, name)),
                    ..self
                },
            },
            Err(error) => self.refused(error),
        }
    }

    /// The ledger after the next token of `domain_id` was registered, before
    /// its supply is minted.
    pub open spec fn with_token(self, domain_id: DomainId, token: TokenView) -> LedgerView
        recommends
            self.domains.contains_key(domain_id),
            self.domains[domain_id].next_token_id < TokenId::MAX,
    {
        let domain = self.domains[domain_id].with_next_token();
        LedgerView {
            domains: self.domains.insert(domain_id, domain),
            tokens: self.tokens.insert((domain_id, domain.next_token_id), token),
            ..self
        }
    }

    /// Creating a token in `domain_id`, called by `who`, with its whole supply
    /// minted to `creator`.
    ///
    /// Refused, in this order, with `InvalidTotalSupply` or `InvalidBaseUri`
    /// where a field is not accepted, with `NotDomainOwner` where `who` does
    /// not own the domain or the domain does not exist, with
    /// `TokenIdOverflow` where the domain's counter is at the end of its
    /// range, and with `BalanceOverflow` where `creator` cannot hold the
    /// supply. Otherwise the domain's counter moves on by one, the token gets
    /// the identifier at which it then stands, and `creator` has
    /// `total_supply` more of it.
    pub open spec fn create_token(
        self,
        who: AccountId,
        domain_id: DomainId,
        creator: AccountId,
        total_supply: Balance,
        base_uri: Seq<u8>,
    ) -> Outcome<Event> {
        match create_token_rule(
            who,
            self.domain(domain_id),
            total_supply,
            base_uri,
            self.held_of_token_to_come(creator, domain_id),
        ) {
            Ok((token_id, balance)) => Outcome {
                result: Ok(Event::TokenCreated(creator, domain_id, token_id, total_supply)),
                state: self.with_token(
                    domain_id,
                    TokenView { base_uri, total_supply, creator },
                ).with_balance(creator, domain_id, token_id, balance),
            },
            Err(error) => self.refused(error),
        }
    }

    /// Burning `quantity` of a token from `victim`, called by `who`.
    ///
    /// Refused, in this order, with `InvalidQuantityToBurn` where `quantity`
    /// is zero, with `NotDomainOwner` where `who` does not own the domain or
    /// the domain does not exist, and with `BalanceOverflow` where `victim`
    /// has less than `quantity`.
    pub open spec fn burn_tokens(
        self,
        who: AccountId,
        domain_id: DomainId,
        token_id: TokenId,
        victim: AccountId,
        quantity: Balance,
    ) -> Outcome<Event> {
        match burn_tokens_rule(
            who,
            self.domain(domain_id),
            quantity,
            self.balance(victim, domain_id, token_id),
        ) {
            Ok(balance) => Outcome {
                result: Ok(Event::TokensBurnt(victim, domain_id, token_id, quantity)),
                state: self.with_balance(victim, domain_id, token_id, balance),
            },
            Err(error) => self.refused(error),
        }
    }
}

} // verus!
