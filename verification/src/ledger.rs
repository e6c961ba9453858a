//! The ledger: domains, their tokens, and what each account holds of them.
//!
//! Three operations change a ledger: `create_domain`, `create_token` and
//! `burn_tokens`. Each checks its input and the caller's right first and
//! changes the ledger only when nothing is left that can fail, so a refused
//! operation leaves no trace. `mint` and `burn` are the two steps beneath them
//! that move a balance. They check no right: whoever lets others act on a
//! ledger offers them the three operations and keeps the two steps to itself.
//!
//! What each function does is stated over the state of the ledger, `ledger@`,
//! by the function of the same name on `LedgerView`. No function asks
//! anything of its caller: a ledger is always in a state that satisfies
//! `LedgerView::inv`.

use crate::model::LedgerView;
use crate::registry::{Domain, Token};
use crate::tables::Tables;
use crate::types::{AccountId, Balance, DomainId, Error, Event, TokenId};
use vstd::prelude::*;

verus! {

/// A ledger of domains, tokens and balances.
#[derive(Debug, PartialEq, Eq)]
pub struct Ledger {
    tables: Tables,
}

impl View for Ledger {
    type V = LedgerView;

    closed spec fn view(&self) -> LedgerView {
        self.tables@
    }
}

impl Clone for Ledger {
    /// A second ledger in the same state.
    fn clone(&self) -> (copy: Ledger)
        ensures
            copy@ == self@,
    {
        proof {
            use_type_invariant(self);
        }
        Ledger { tables: self.tables.clone() }
    }
}

impl Ledger {
    #[verifier::type_invariant]
    spec fn sound(&self) -> bool {
        self.tables.wf()
    }

    /// A ledger without domains, whose first domain will get the identifier
    /// zero.
    pub fn new() -> (ledger: Ledger)
        ensures
            ledger@ == LedgerView::empty(),
            ledger@.inv(),
    {
        let tables = Tables::new();
        proof {
            tables.lemma_wf_inv();
        }
        Ledger { tables }
    }

    /// The identifier that the next domain will get: the number of domains
    /// created so far.
    pub fn next_domain_id(&self) -> (id: DomainId)
        ensures
            id == self@.next_domain_id,
            self@.inv(),
    {
        proof {
            use_type_invariant(self);
            self.tables.lemma_wf_inv();
        }
        self.tables.next_domain_id()
    }

    /// The domain `domain_id`, if it exists.
    pub fn domains(&self, domain_id: DomainId) -> (domain: Option<&Domain>)
        ensures
            match domain {
                Some(record) => self@.domains.contains_key(domain_id) && record@
                    == self@.domains[domain_id],
                None => !self@.domains.contains_key(domain_id),
            },
            self@.inv(),
    {
        proof {
            use_type_invariant(self);
            self.tables.lemma_wf_inv();
        }
        self.tables.domains(domain_id)
    }

    /// The token `token_id` of the domain `domain_id`, if it exists.
    pub fn tokens(&self, domain_id: DomainId, token_id: TokenId) -> (token: Option<&Token>)
        ensures
            match token {
                Some(record) => self@.tokens.contains_key((domain_id, token_id)) && record@
                    == self@.tokens[(domain_id, token_id)],
                None => !self@.tokens.contains_key((domain_id, token_id)),
            },
            self@.inv(),
    {
        proof {
            use_type_invariant(self);
            self.tables.lemma_wf_inv();
        }
        self.tables.tokens(domain_id, token_id)
    }

    /// What `holder` has of the token `key.1` of the domain `key.0`: zero
    /// where nothing was ever minted to it.
    pub fn balances(&self, holder: AccountId, key: (DomainId, TokenId)) -> (balance: Balance)
        ensures
            balance == self@.balance(holder, key.0, key.1),
            self@.inv(),
    {
        proof {
            use_type_invariant(self);
            self.tables.lemma_wf_inv();
        }
        self.tables.balances(holder, key)
    }

    /// Adds `quantity` to what `to` has of a token, and returns the new
    /// balance.
    ///
    /// Fails with `InvalidDomain` where the domain does not exist, and with
    /// `BalanceOverflow` where the sum exceeds the range of a balance.
    ///
    /// No right of the caller is checked, and the token need not exist: this
    /// is the step by which `create_token` hands out the supply once it has
    /// checked the caller's right.
    pub fn mint(
        &mut self,
        to: AccountId,
        domain_id: DomainId,
        token_id: TokenId,
        quantity: Balance,
    ) -> (result: Result<Balance, Error>)
        ensures
            result == old(self)@.mint(to, domain_id, token_id, quantity).result,
            final(self)@ == old(self)@.mint(to, domain_id, token_id, quantity).state,
            final(self)@.inv(),
    {
        proof {
            use_type_invariant(&*self);
        }
        let mut tables = Tables::new();
        std::mem::swap(&mut tables, &mut self.tables);
        let result = tables.mint(to, domain_id, token_id, quantity);
        proof {
            tables.lemma_wf_inv();
        }
        self.tables = tables;
        result
    }

    /// Takes `quantity` from what `from` has of a token, and returns the new
    /// balance.
    ///
    /// Fails with `InvalidDomain` where the domain does not exist, and with
    /// `BalanceOverflow` where `from` has less than `quantity`.
    ///
    /// No right of the caller is checked: this is the step that `burn_tokens`
    /// takes once it has checked the caller's right.
    pub fn burn(
        &mut self,
        from: AccountId,
        domain_id: DomainId,
        token_id: TokenId,
        quantity: Balance,
    ) -> (result: Result<Balance, Error>)
        ensures
            result == old(self)@.burn(from, domain_id, token_id, quantity).result,
            final(self)@ == old(self)@.burn(from, domain_id, token_id, quantity).state,
            final(self)@.inv(),
    {
        proof {
            use_type_invariant(&*self);
        }
        let mut tables = Tables::new();
        std::mem::swap(&mut tables, &mut self.tables);
        let result = tables.burn(from, domain_id, token_id, quantity);
        proof {
            tables.lemma_wf_inv();
        }
        self.tables = tables;
        result
    }

    /// Creates a domain owned by `owner` and reports it as `DomainCreated`
    /// with its identifier.
    ///
    /// Fails, in this order, with `InvalidSymbol` where the symbol has two
    /// bytes or fewer, with `InvalidName` where the name has three bytes or
    /// fewer, and with `DomainIdOverflow` where no identifier is left. A call
    /// that fails uses up no identifier.
    pub fn create_domain(&mut self, owner: AccountId, symbol: Vec<u8>, name: Vec<u8>) -> (result:
        Result<Event, Error>)
        ensures
            result == old(self)@.create_domain(owner, symbol@, name@).result,
            final(self)@ == old(self)@.create_domain(owner, symbol@, name@).state,
            final(self)@.inv(),
    {
        proof {
            use_type_invariant(&*self);
        }
        let mut tables = Tables::new();
        std::mem::swap(&mut tables, &mut self.tables);
        let result = tables.create_domain(owner, symbol, name);
        proof {
            tables.lemma_wf_inv();
        }
        self.tables = tables;
        result
    }

    /// Creates a token in the domain `domain_id`, mints its whole supply to
    /// `creator`, and reports it as `TokenCreated` with its identifier. The
    /// first token of a domain has the identifier one.
    ///
    /// Fails, in this order, with `InvalidTotalSupply` where the supply is
    /// zero, with `InvalidBaseUri` where the base URI has three bytes or
    /// fewer, with `NotDomainOwner` where `who` does not own the domain or the
    /// domain does not exist, with `TokenIdOverflow` where the domain has no
    /// identifier left, and with `BalanceOverflow` where `creator` cannot hold
    /// the supply. A call that fails uses up no identifier and leaves no
    /// record.
    pub fn create_token(
        &mut self,
        who: AccountId,
        domain_id: DomainId,
        creator: AccountId,
        total_supply: Balance,
        base_uri: Vec<u8>,
    ) -> (result: Result<Event, Error>)
        ensures
            result == old(self)@.create_token(
                who,
                domain_id,
                creator,
                total_supply,
                base_uri@,
            ).result,
            final(self)@ == old(self)@.create_token(
                who,
                domain_id,
                creator,
                total_supply,
                base_uri@,
            ).state,
            final(self)@.inv(),
    {
        proof {
            use_type_invariant(&*self);
        }
        let mut tables = Tables::new();
        std::mem::swap(&mut tables, &mut self.tables);
        let result = tables.create_token(who, domain_id, creator, total_supply, base_uri);
        proof {
            tables.lemma_wf_inv();
        }
        self.tables = tables;
        result
    }

    /// Burns `quantity` of a token from `victim` on the word of `who`, and
    /// reports it as `TokensBurnt`.
    ///
    /// Fails, in this order, with `InvalidQuantityToBurn` where the quantity
    /// is zero, with `NotDomainOwner` where `who` does not own the domain or
    /// the domain does not exist, and with `BalanceOverflow` where `victim`
    /// has less than `quantity`.
    pub fn burn_tokens(
        &mut self,
        who: AccountId,
        domain_id: DomainId,
        token_id: TokenId,
        victim: AccountId,
        quantity: Balance,
    ) -> (result: Result<Event, Error>)
        ensures
            result == old(self)@.burn_tokens(who, domain_id, token_id, victim, quantity).result,
            final(self)@ == old(self)@.burn_tokens(who, domain_id, token_id, victim, quantity).state,
            final(self)@.inv(),
    {
        proof {
            use_type_invariant(&*self);
        }
        let mut tables = Tables::new();
        std::mem::swap(&mut tables, &mut self.tables);
        let result = tables.burn_tokens(who, domain_id, token_id, victim, quantity);
        proof {
            tables.lemma_wf_inv();
        }
        self.tables = tables;
        result
    }
}

} // verus!
