//! How a ledger keeps its state.
//!
//! The domains stand in a vector, each at the index that is its identifier,
//! and each with its tokens and with what the accounts hold of them. The
//! functions here ask for well-formed tables and leave them well formed;
//! `Ledger` holds well-formedness as its invariant, so that its callers need
//! not know of it. What an operation decides is decided by its rule in
//! `rules`; here stands what is read for the rule and what is written.

use crate::model::LedgerView;
use crate::registry::{Domain, Token};
use crate::rules;
use crate::types::{AccountId, Balance, DomainId, Error, Event, TokenId};
use std::collections::BTreeMap;
use vstd::prelude::*;

verus! {

/// A domain with all that belongs to it.
#[derive(Debug, PartialEq, Eq)]
pub(crate) struct DomainSlot {
    record: Domain,
    /// The token with identifier `t` stands at index `t - 1`.
    tokens: Vec<Token>,
    /// What each holder has of each token, where it is not zero.
    holdings: BTreeMap<(AccountId, TokenId), Balance>,
}

impl DomainSlot {
    /// Both slots hold the same domain, the same tokens and the same
    /// balances.
    pub closed spec fn same_as(&self, other: &DomainSlot) -> bool {
        &&& self.record@ == other.record@
        &&& self.tokens.len() == other.tokens.len()
        &&& forall|i: int|
            0 <= i < self.tokens.len() ==> (#[trigger] self.tokens[i])@ == other.tokens[i]@
        &&& self.holdings@ == other.holdings@
    }

    spec fn wf(&self) -> bool {
        &&& self.record@.valid()
        &&& self.tokens.len() == self.record@.next_token_id
        &&& forall|i: int| 0 <= i < self.tokens.len() ==> (#[trigger] self.tokens[i])@.valid()
        &&& forall|key: (AccountId, TokenId)| #[trigger]
            self.holdings@.contains_key(key) ==> self.holdings@[key] != 0
    }

    spec fn balance(&self, holder: AccountId, token_id: TokenId) -> Balance {
        if self.holdings@.contains_key((holder, token_id)) {
            self.holdings@[(holder, token_id)]
        } else {
            0
        }
    }
}

impl Clone for DomainSlot {
    fn clone(&self) -> (copy: DomainSlot)
        ensures
            copy.same_as(self),
    {
        let tokens = self.tokens.clone();
        assert forall|i: int| 0 <= i < tokens.len() implies (#[trigger] tokens[i])@
            == self.tokens[i]@ by {
            assert(cloned::<Token>(self.tokens[i], tokens[i]));
        }
        DomainSlot { record: self.record.clone(), tokens, holdings: self.holdings.clone() }
    }
}

/// The counter of domains and the domains themselves.
#[derive(Debug, PartialEq, Eq)]
pub(crate) struct Tables {
    next_domain_id: DomainId,
    /// The domain with identifier `d` stands at index `d`.
    slots: Vec<DomainSlot>,
}

impl View for Tables {
    type V = LedgerView;

    closed spec fn view(&self) -> LedgerView {
        LedgerView {
            next_domain_id: self.next_domain_id,
            domains: Map::new(
                |d: DomainId| d < self.slots.len(),
                |d: DomainId| self.slots[d as int].record@,
            ),
            tokens: Map::new(
                |k: (DomainId, TokenId)|
                    k.0 < self.slots.len() && 1 <= k.1 <= self.slots[k.0 as int].tokens.len(),
                |k: (DomainId, TokenId)| self.slots[k.0 as int].tokens[k.1 - 1]@,
            ),
            balances: Map::total(
                |k: (AccountId, DomainId, TokenId)|
                    if k.1 < self.slots.len() {
                        self.slots[k.1 as int].balance(k.0, k.2)
                    } else {
                        0
                    },
            ),
        }
    }
}

impl Clone for Tables {
    fn clone(&self) -> (copy: Tables)
        ensures
            copy@ == self@,
            self.wf() ==> copy.wf(),
    {
        let slots = self.slots.clone();
        let copy = Tables { next_domain_id: self.next_domain_id, slots };
        proof {
            assert forall|i: int| 0 <= i < copy.slots.len() implies (
            #[trigger] copy.slots[i]).same_as(&self.slots[i]) by {
                assert(cloned::<DomainSlot>(self.slots[i], copy.slots[i]));
            }
            assert(copy@.domains =~= self@.domains);
            assert(copy@.tokens =~= self@.tokens);
            assert(copy@.balances =~= self@.balances);
            if self.wf() {
                assert forall|i: int| 0 <= i < copy.slots.len() implies (
                #[trigger] copy.slots[i]).wf() by {
                    assert(self.slots[i].wf());
                    assert(copy.slots[i].same_as(&self.slots[i]));
                }
            }
        }
        copy
    }
}

impl Tables {
    /// There is one slot for each identifier that was issued, and each slot is
    /// well formed.
    pub closed spec fn wf(&self) -> bool {
        &&& self.slots.len() == self.next_domain_id
        &&& forall|i: int| 0 <= i < self.slots.len() ==> (#[trigger] self.slots[i]).wf()
    }

    /// Well-formed tables are in a state that satisfies the invariant of
    /// ledger states.
    pub(crate) proof fn lemma_wf_inv(&self)
        requires
            self.wf(),
        ensures
            self@.inv(),
    {
        let v = self@;
        assert forall|d: DomainId, t: TokenId| #[trigger]
            v.tokens.contains_key((d, t)) implies v.tokens[(d, t)].valid() by {
            assert(self.slots[d as int].wf());
        }
        assert forall|d: DomainId| #[trigger] v.domains.contains_key(d) implies v.domains[d].valid() by {
            assert(self.slots[d as int].wf());
        }
        assert forall|d: DomainId, t: TokenId| #[trigger]
            v.tokens.contains_key((d, t)) <==> v.domains.contains_key(d) && 1 <= t
                <= v.domains[d].next_token_id by {
            if d < self.slots.len() {
                assert(self.slots[d as int].wf());
            }
        }
    }

    /// Tables without domains.
    pub(crate) fn new() -> (tables: Tables)
        ensures
            tables.wf(),
            tables@ == LedgerView::empty(),
    {
        let tables = Tables { next_domain_id: 0, slots: Vec::new() };
        assert(tables@.domains =~= LedgerView::empty().domains);
        assert(tables@.tokens =~= LedgerView::empty().tokens);
        assert(tables@.balances =~= LedgerView::empty().balances);
        tables
    }

    /// The identifier that the next domain will get.
    pub(crate) fn next_domain_id(&self) -> (id: DomainId)
        ensures
            id == self@.next_domain_id,
    {
        self.next_domain_id
    }

    /// The domain `domain_id`, if it exists.
    pub(crate) fn domains(&self, domain_id: DomainId) -> (domain: Option<&Domain>)
        requires
            self.wf(),
        ensures
            match domain {
                Some(record) => self@.domains.contains_key(domain_id) && record@
                    == self@.domains[domain_id],
                None => !self@.domains.contains_key(domain_id),
            },
    {
        if domain_id < self.next_domain_id {
            Some(&self.slots[domain_id as usize].record)
        } else {
            None
        }
    }

    /// The token `token_id` of the domain `domain_id`, if it exists.
    pub(crate) fn tokens(&self, domain_id: DomainId, token_id: TokenId) -> (token: Option<&Token>)
        requires
            self.wf(),
        ensures
            match token {
                Some(record) => self@.tokens.contains_key((domain_id, token_id)) && record@
                    == self@.tokens[(domain_id, token_id)],
                None => !self@.tokens.contains_key((domain_id, token_id)),
            },
    {
        if domain_id < self.next_domain_id {
            let slot = &self.slots[domain_id as usize];
            if 1 <= token_id && token_id <= slot.record.next_token_id() {
                return Some(&slot.tokens[(token_id - 1) as usize]);
            }
        }
        None
    }

    /// What `holder` has of the token `key.1` of the domain `key.0`.
    pub(crate) fn balances(&self, holder: AccountId, key: (DomainId, TokenId)) -> (balance: Balance)
        requires
            self.wf(),
        ensures
            balance == self@.balance(holder, key.0, key.1),
    {
        if key.0 < self.next_domain_id {
            match self.slots[key.0 as usize].holdings.get(&(holder, key.1)) {
                Some(balance) => *balance,
                None => 0,
            }
        } else {
            0
        }
    }

    /// Writes one balance of a domain that exists.
    fn set_balance(
        &mut self,
        holder: AccountId,
        domain_id: DomainId,
        token_id: TokenId,
        balance: Balance,
    )
        requires
            old(self).wf(),
            old(self)@.domains.contains_key(domain_id),
        ensures
            final(self).wf(),
            final(self)@ == old(self)@.with_balance(holder, domain_id, token_id, balance),
    {
        if balance == 0 {
            self.slots[domain_id as usize].holdings.remove(&(holder, token_id));
        } else {
            self.slots[domain_id as usize].holdings.insert((holder, token_id), balance);
        }
        proof {
            assert forall|i: int| 0 <= i < self.slots.len() implies (#[trigger] self.slots[i]).wf() by {
                assert(old(self).slots[i].wf());
            }
            let expected = old(self)@.with_balance(holder, domain_id, token_id, balance);
            assert(self@.domains =~= expected.domains);
            assert(self@.tokens =~= expected.tokens);
            assert(self@.balances =~= expected.balances);
        }
    }

    /// Adds `quantity` to what `to` has of a token, where the domain exists
    /// and the sum is in range.
    pub(crate) fn mint(
        &mut self,
        to: AccountId,
        domain_id: DomainId,
        token_id: TokenId,
        quantity: Balance,
    ) -> (result: Result<Balance, Error>)
        requires
            old(self).wf(),
        ensures
            final(self).wf(),
            result == old(self)@.mint(to, domain_id, token_id, quantity).result,
            final(self)@ == old(self)@.mint(to, domain_id, token_id, quantity).state,
    {
        let held = self.balances(to, (domain_id, token_id));
        match rules::mint(domain_id < self.next_domain_id, held, quantity) {
            Ok(balance) => {
                self.set_balance(to, domain_id, token_id, balance);
                Ok(balance)
            },
            Err(error) => Err(error),
        }
    }

    /// Takes `quantity` from what `from` has of a token, where the domain
    /// exists and `from` has as much.
    pub(crate) fn burn(
        &mut self,
        from: AccountId,
        domain_id: DomainId,
        token_id: TokenId,
        quantity: Balance,
    ) -> (result: Result<Balance, Error>)
        requires
            old(self).wf(),
        ensures
            final(self).wf(),
            result == old(self)@.burn(from, domain_id, token_id, quantity).result,
            final(self)@ == old(self)@.burn(from, domain_id, token_id, quantity).state,
    {
        let held = self.balances(from, (domain_id, token_id));
        match rules::burn(domain_id < self.next_domain_id, held, quantity) {
            Ok(balance) => {
                self.set_balance(from, domain_id, token_id, balance);
                Ok(balance)
            },
            Err(error) => Err(error),
        }
    }

    /// Adds a slot for a new domain of `owner`, where its fields are accepted
    /// and an identifier is left.
    pub(crate) fn create_domain(&mut self, owner: AccountId, symbol: Vec<u8>, name: Vec<u8>) -> (result:
        Result<Event, Error>)
        requires
            old(self).wf(),
        ensures
            final(self).wf(),
            result == old(self)@.create_domain(owner, symbol@, name@).result,
            final(self)@ == old(self)@.create_domain(owner, symbol@, name@).state,
    {
        let created = match rules::create_domain(&mut self.next_domain_id, owner, symbol, name) {
            Ok(created) => created,
            Err(error) => {
                return Err(error);
            },
        };
        self.slots.push(
            DomainSlot { record: created.domain, tokens: Vec::new(), holdings: BTreeMap::new() },
        );
        proof {
            let expected = old(self)@.create_domain(owner, symbol@, name@).state;
            assert forall|i: int| 0 <= i < self.slots.len() implies (#[trigger] self.slots[i]).wf() by {
                if i < old(self).slots.len() {
                    assert(old(self).slots[i].wf());
                }
            }
            assert(self@.domains =~= expected.domains);
            assert(self@.tokens =~= expected.tokens);
            assert(self@.balances =~= expected.balances);
        }
        Ok(created.event)
    }

    /// Adds a token to the slot of `domain_id` and its supply to what
    /// `creator` holds, where the fields are accepted, `who` owns the domain,
    /// an identifier is left and `creator` can hold the supply.
    pub(crate) fn create_token(
        &mut self,
        who: AccountId,
        domain_id: DomainId,
        creator: AccountId,
        total_supply: Balance,
        base_uri: Vec<u8>,
    ) -> (result: Result<Event, Error>)
        requires
            old(self).wf(),
        ensures
            final(self).wf(),
            result == old(self)@.create_token(
                who,
                domain_id,
                creator,
                total_supply,
                base_uri@,
            ).result,
            final(self)@ == old(self)@.create_token(
                who,
                domain_id,
                creator,
                total_supply,
                base_uri@,
            ).state,
    {
        let held = match rules::next_token_id(self.domains(domain_id)) {
            Some(token_id) => self.balances(creator, (domain_id, token_id)),
            None => 0,
        };
        let domain = if domain_id < self.next_domain_id {
            Some(&mut self.slots[domain_id as usize].record)
        } else {
            None
        };
        let created = match rules::create_token(
            who,
            domain_id,
            domain,
            creator,
            total_supply,
            base_uri,
            held,
        ) {
            Ok(created) => created,
            Err(error) => {
                proof {
                    // the record of the domain is as it was
                    assert forall|i: int| 0 <= i < self.slots.len() implies (
                    #[trigger] self.slots[i]).wf() by {
                        assert(old(self).slots[i].wf());
                    }
                    assert(self@.domains =~= old(self)@.domains);
                    assert(self@.tokens =~= old(self)@.tokens);
                    assert(self@.balances =~= old(self)@.balances);
                }
                return Err(error);
            },
        };
        let ghost token = created.token@;
        self.slots[domain_id as usize].tokens.push(created.token);
        proof {
            let registered = old(self)@.with_token(domain_id, token);
            assert(self.slots[domain_id as int].wf());
            assert forall|i: int| 0 <= i < self.slots.len() implies (#[trigger] self.slots[i]).wf() by {
                if i != domain_id {
                    assert(old(self).slots[i].wf());
                }
            }
            assert(self@.domains =~= registered.domains);
            assert(self@.tokens =~= registered.tokens);
            assert(self@.balances =~= registered.balances);
        }
        self.set_balance(creator, domain_id, created.token_id, created.balance);
        Ok(created.event)
    }

    /// Takes `quantity` of a token from `victim`, where it is not zero, `who`
    /// owns the domain and `victim` has as much.
    pub(crate) fn burn_tokens(
        &mut self,
        who: AccountId,
        domain_id: DomainId,
        token_id: TokenId,
        victim: AccountId,
        quantity: Balance,
    ) -> (result: Result<Event, Error>)
        requires
            old(self).wf(),
        ensures
            final(self).wf(),
            result == old(self)@.burn_tokens(who, domain_id, token_id, victim, quantity).result,
            final(self)@ == old(self)@.burn_tokens(who, domain_id, token_id, victim, quantity).state,
    {
        let held = self.balances(victim, (domain_id, token_id));
        let burnt = match rules::burn_tokens(
            who,
            domain_id,
            token_id,
            self.domains(domain_id),
            victim,
            quantity,
            held,
        ) {
            Ok(burnt) => burnt,
            Err(error) => {
                return Err(error);
            },
        };
        self.set_balance(victim, domain_id, token_id, burnt.balance);
        Ok(burnt.event)
    }
}

} // verus!
