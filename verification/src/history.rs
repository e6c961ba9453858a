//! Histories: what holds of a ledger over any sequence of operations.
//!
//! An `Operation` is one call with its arguments. `replay` applies a sequence
//! of them to a state, one after the other, whether each is accepted or
//! refused. The proof functions of this module state what no history can
//! break: identifiers count up and are never issued twice, records stay as
//! they were made, a refused operation changes nothing, and a balance is what
//! was minted less what was burnt.

use crate::model::LedgerView;
use crate::registry::{valid_name, valid_symbol, TokenView};
use crate::types::{AccountId, Balance, DomainId, Error, Event, TokenId};
use vstd::prelude::*;

verus! {

/// One call on a ledger, with its arguments.
pub enum Operation {
    CreateDomain { owner: AccountId, symbol: Seq<u8>, name: Seq<u8> },
    CreateToken {
        who: AccountId,
        domain_id: DomainId,
        creator: AccountId,
        total_supply: Balance,
        base_uri: Seq<u8>,
    },
    BurnTokens {
        who: AccountId,
        domain_id: DomainId,
        token_id: TokenId,
        victim: AccountId,
        quantity: Balance,
    },
    Mint { to: AccountId, domain_id: DomainId, token_id: TokenId, quantity: Balance },
    Burn { from: AccountId, domain_id: DomainId, token_id: TokenId, quantity: Balance },
}

impl Operation {
    /// The account whose balance the operation is about: the one minted to or
    /// burnt from. For the creation of a domain, which moves no balance, it is
    /// the owner.
    pub open spec fn holder(self) -> AccountId {
        match self {
            Operation::CreateDomain { owner, .. } => owner,
            Operation::CreateToken { creator, .. } => creator,
            Operation::BurnTokens { victim, .. } => victim,
            Operation::Mint { to, .. } => to,
            Operation::Burn { from, .. } => from,
        }
    }
}

impl LedgerView {
    /// Whether `operation` succeeds in this state.
    pub open spec fn accepts(self, operation: Operation) -> bool {
        match operation {
            Operation::CreateDomain { owner, symbol, name } => self.create_domain(
                owner,
                symbol,
                name,
            ).result is Ok,
            Operation::CreateToken { who, domain_id, creator, total_supply, base_uri } =>
                self.create_token(who, domain_id, creator, total_supply, base_uri).result is Ok,
            Operation::BurnTokens { who, domain_id, token_id, victim, quantity } =>
                self.burn_tokens(who, domain_id, token_id, victim, quantity).result is Ok,
            Operation::Mint { to, domain_id, token_id, quantity } => self.mint(
                to,
                domain_id,
                token_id,
                quantity,
            ).result is Ok,
            Operation::Burn { from, domain_id, token_id, quantity } => self.burn(
                from,
                domain_id,
                token_id,
                quantity,
            ).result is Ok,
        }
    }

    /// The state that `operation` leaves.
    pub open spec fn after(self, operation: Operation) -> LedgerView {
        match operation {
            Operation::CreateDomain { owner, symbol, name } => self.create_domain(
                owner,
                symbol,
                name,
            ).state,
            Operation::CreateToken { who, domain_id, creator, total_supply, base_uri } =>
                self.create_token(who, domain_id, creator, total_supply, base_uri).state,
            Operation::BurnTokens { who, domain_id, token_id, victim, quantity } =>
                self.burn_tokens(who, domain_id, token_id, victim, quantity).state,
            Operation::Mint { to, domain_id, token_id, quantity } => self.mint(
                to,
                domain_id,
                token_id,
                quantity,
            ).state,
            Operation::Burn { from, domain_id, token_id, quantity } => self.burn(
                from,
                domain_id,
                token_id,
                quantity,
            ).state,
        }
    }

    /// The quantity that `operation` adds to what `holder` has of the token,
    /// in this state: that of an accepted mint to `holder`, or the supply of a
    /// token that is created for `holder`.
    pub open spec fn credits(
        self,
        operation: Operation,
        holder: AccountId,
        domain_id: DomainId,
        token_id: TokenId,
    ) -> int {
        if !self.accepts(operation) {
            0
        } else {
            match operation {
                Operation::Mint { to, domain_id: d, token_id: t, quantity } => if (to, d, t) == (
                    holder,
                    domain_id,
                    token_id,
                ) {
                    quantity as int
                } else {
                    0
                },
                Operation::CreateToken { who, domain_id: d, creator, total_supply, base_uri } =>
                    if (creator, d, self.domains[d].next_token_id + 1) == (
                        holder,
                        domain_id,
                        token_id as int,
                    ) {
                        total_supply as int
                    } else {
                        0
                    },
                _ => 0,
            }
        }
    }

    /// The quantity that `operation` takes from what `holder` has of the
    /// token, in this state: that of an accepted burn from `holder`.
    pub open spec fn debits(
        self,
        operation: Operation,
        holder: AccountId,
        domain_id: DomainId,
        token_id: TokenId,
    ) -> int {
        if !self.accepts(operation) {
            0
        } else {
            match operation {
                Operation::Burn { from, domain_id: d, token_id: t, quantity } => if (from, d, t)
                    == (holder, domain_id, token_id) {
                    quantity as int
                } else {
                    0
                },
                Operation::BurnTokens { who, domain_id: d, token_id: t, victim, quantity } =>
                    if (victim, d, t) == (holder, domain_id, token_id) {
                        quantity as int
                    } else {
                        0
                    },
                _ => 0,
            }
        }
    }

    /// Nothing that this state records is lost or changed in `later`: the
    /// counters stand at least as high, every domain is there with its owner,
    /// symbol and name, and every token is there as it was made.
    pub open spec fn kept_by(self, later: LedgerView) -> bool {
        &&& self.next_domain_id <= later.next_domain_id
        &&& forall|d: DomainId| #[trigger]
            self.domains.contains_key(d) ==> {
                &&& later.domains.contains_key(d)
                &&& later.domains[d].owner == self.domains[d].owner
                &&& later.domains[d].symbol == self.domains[d].symbol
                &&& later.domains[d].name == self.domains[d].name
                &&& later.domains[d].next_token_id >= self.domains[d].next_token_id
            }
        &&& forall|d: DomainId, t: TokenId| #[trigger]
            self.tokens.contains_key((d, t)) ==> later.tokens.contains_key((d, t))
                && later.tokens[(d, t)] == self.tokens[(d, t)]
    }
}

/// The state after `operations` were applied to `start`, first to last.
pub open spec fn replay(start: LedgerView, operations: Seq<Operation>) -> LedgerView
    decreases operations.len(),
{
    if operations.len() == 0 {
        start
    } else {
        replay(start, operations.drop_last()).after(operations.last())
    }
}

/// All that the accepted operations of a history minted to `holder` of one
/// token.
pub open spec fn total_credits(
    start: LedgerView,
    operations: Seq<Operation>,
    holder: AccountId,
    domain_id: DomainId,
    token_id: TokenId,
) -> int
    decreases operations.len(),
{
    if operations.len() == 0 {
        0
    } else {
        total_credits(start, operations.drop_last(), holder, domain_id, token_id) + replay(
            start,
            operations.drop_last(),
        ).credits(operations.last(), holder, domain_id, token_id)
    }
}

/// All that the accepted operations of a history burnt from `holder` of one
/// token.
pub open spec fn total_debits(
    start: LedgerView,
    operations: Seq<Operation>,
    holder: AccountId,
    domain_id: DomainId,
    token_id: TokenId,
) -> int
    decreases operations.len(),
{
    if operations.len() == 0 {
        0
    } else {
        total_debits(start, operations.drop_last(), holder, domain_id, token_id) + replay(
            start,
            operations.drop_last(),
        ).debits(operations.last(), holder, domain_id, token_id)
    }
}

/// What all accounts below `bound` hold of one token, taken together.
pub open spec fn held_below(
    state: LedgerView,
    domain_id: DomainId,
    token_id: TokenId,
    bound: nat,
) -> int
    decreases bound,
{
    if bound == 0 {
        0
    } else {
        held_below(state, domain_id, token_id, (bound - 1) as nat) + state.balance(
            (bound - 1) as AccountId,
            domain_id,
            token_id,
        )
    }
}

/// What all accounts hold of one token, taken together: the quantity of the
/// token that is in circulation.
pub open spec fn circulating(state: LedgerView, domain_id: DomainId, token_id: TokenId) -> int {
    held_below(state, domain_id, token_id, 0x1_0000_0000_0000_0000)
}

/// All that the accepted operations of a history minted of one token, to
/// whomever.
pub open spec fn total_minted(
    start: LedgerView,
    operations: Seq<Operation>,
    domain_id: DomainId,
    token_id: TokenId,
) -> int
    decreases operations.len(),
{
    if operations.len() == 0 {
        0
    } else {
        total_minted(start, operations.drop_last(), domain_id, token_id) + replay(
            start,
            operations.drop_last(),
        ).credits(operations.last(), operations.last().holder(), domain_id, token_id)
    }
}

/// All that the accepted operations of a history burnt of one token, from
/// whomever.
pub open spec fn total_burnt(
    start: LedgerView,
    operations: Seq<Operation>,
    domain_id: DomainId,
    token_id: TokenId,
) -> int
    decreases operations.len(),
{
    if operations.len() == 0 {
        0
    } else {
        total_burnt(start, operations.drop_last(), domain_id, token_id) + replay(
            start,
            operations.drop_last(),
        ).debits(operations.last(), operations.last().holder(), domain_id, token_id)
    }
}

/// The operations that create one domain for each pair of a symbol and a
/// name, all for `owner`.
pub open spec fn domain_creations(owner: AccountId, fields: Seq<(Seq<u8>, Seq<u8>)>) -> Seq<
    Operation,
> {
    Seq::new(
        fields.len(),
        |i: int| Operation::CreateDomain { owner, symbol: fields[i].0, name: fields[i].1 },
    )
}

/// An operation that is refused leaves the state as it was: no identifier is
/// used up, no record written and no balance moved.
pub proof fn lemma_refused_changes_nothing(state: LedgerView, operation: Operation)
    requires
        !state.accepts(operation),
    ensures
        state.after(operation) == state,
{
}

/// Every operation, accepted or refused, keeps the invariant of ledger
/// states.
pub proof fn lemma_operation_keeps_inv(state: LedgerView, operation: Operation)
    requires
        state.inv(),
    ensures
        state.after(operation).inv(),
{
}

/// Every history keeps the invariant of ledger states.
pub proof fn lemma_replay_keeps_inv(start: LedgerView, operations: Seq<Operation>)
    requires
        start.inv(),
    ensures
        replay(start, operations).inv(),
    decreases operations.len(),
{
    if operations.len() > 0 {
        lemma_replay_keeps_inv(start, operations.drop_last());
        lemma_operation_keeps_inv(replay(start, operations.drop_last()), operations.last());
    }
}

/// No operation loses or changes what the ledger records: counters never go
/// back, a domain keeps its owner, symbol and name, and a token stays as it
/// was made.
pub proof fn lemma_operation_keeps_records(state: LedgerView, operation: Operation)
    requires
        state.inv(),
    ensures
        state.kept_by(state.after(operation)),
{
}

/// No history loses or changes what the ledger recorded at any earlier point
/// of it.
pub proof fn lemma_replay_keeps_records(
    start: LedgerView,
    operations: Seq<Operation>,
    earlier: int,
)
    requires
        start.inv(),
        0 <= earlier <= operations.len(),
    ensures
        replay(start, operations.take(earlier)).kept_by(replay(start, operations)),
    decreases operations.len() - earlier,
{
    if earlier == operations.len() {
        assert(operations.take(earlier) =~= operations);
    } else {
        let shorter = operations.drop_last();
        lemma_replay_keeps_records(start, shorter, earlier);
        assert(shorter.take(earlier) =~= operations.take(earlier));
        lemma_replay_keeps_inv(start, shorter);
        lemma_operation_keeps_records(replay(start, shorter), operations.last());
    }
}

/// A domain whose symbol has two bytes or fewer is refused with
/// `InvalidSymbol`, whatever its name; one with an accepted symbol and a name
/// of three bytes or fewer is refused with `InvalidName`. Neither leaves a
/// trace: the counter of domains stays where it was.
pub proof fn lemma_short_domain_fields_are_refused(
    state: LedgerView,
    owner: AccountId,
    symbol: Seq<u8>,
    name: Seq<u8>,
)
    ensures
        symbol.len() <= 2 ==> state.create_domain(owner, symbol, name).result == Err::<
            Event,
            Error,
        >(Error::InvalidSymbol),
        symbol.len() > 2 && name.len() <= 3 ==> state.create_domain(owner, symbol, name).result
            == Err::<Event, Error>(Error::InvalidName),
        symbol.len() <= 2 || name.len() <= 3 ==> state.create_domain(owner, symbol, name).state
            == state,
{
}

/// Domains that one owner creates one after the other in a new ledger, each
/// with an accepted symbol and name, get the identifiers zero, one, two and
/// so on, and each is reported by an event with its own identifier. This
/// holds as long as the identifiers last.
pub proof fn lemma_domain_ids_count_up(
    owner: AccountId,
    fields: Seq<(Seq<u8>, Seq<u8>)>,
    nth: int,
)
    requires
        forall|i: int|
            0 <= i < fields.len() ==> valid_symbol(#[trigger] fields[i].0) && valid_name(
                fields[i].1,
            ),
        0 <= nth < fields.len() <= DomainId::MAX,
    ensures
        replay(LedgerView::empty(), domain_creations(owner, fields).take(nth)).create_domain(
            owner,
            fields[nth].0,
            fields[nth].1,
        ).result == Ok::<Event, Error>(Event::DomainCreated(owner, nth as DomainId)),
{
    lemma_domain_creations_count(owner, fields, nth);
}

/// After `count` accepted creations in a new ledger the counter of domains
/// stands at `count`.
proof fn lemma_domain_creations_count(owner: AccountId, fields: Seq<(Seq<u8>, Seq<u8>)>, count: int)
    requires
        forall|i: int|
            0 <= i < fields.len() ==> valid_symbol(#[trigger] fields[i].0) && valid_name(
                fields[i].1,
            ),
        0 <= count <= fields.len() <= DomainId::MAX,
    ensures
        replay(LedgerView::empty(), domain_creations(owner, fields).take(count)).next_domain_id
            == count,
    decreases count,
{
    let operations = domain_creations(owner, fields).take(count);
    if count > 0 {
        lemma_domain_creations_count(owner, fields, count - 1);
        assert(operations.drop_last() =~= domain_creations(owner, fields).take(count - 1));
    }
}

/// Of two domains that were created in one history, the later has the larger
/// identifier: no identifier is issued twice.
pub proof fn lemma_domain_ids_increase(
    start: LedgerView,
    operations: Seq<Operation>,
    first: int,
    second: int,
)
    requires
        start.inv(),
        0 <= first < second < operations.len(),
        operations[first] is CreateDomain,
        operations[second] is CreateDomain,
        replay(start, operations.take(first)).accepts(operations[first]),
        replay(start, operations.take(second)).accepts(operations[second]),
    ensures
        replay(start, operations.take(first)).next_domain_id < replay(
            start,
            operations.take(second),
        ).next_domain_id,
{
    let upto = operations.take(second);
    assert(upto.take(first + 1) =~= operations.take(first + 1));
    assert(operations.take(first + 1).drop_last() =~= operations.take(first));
    lemma_replay_keeps_records(start, upto, first + 1);
}

/// Where `owner` owns the domain: a token with a supply of zero is refused
/// with `InvalidTotalSupply`, whoever calls; one with a supply and a base URI
/// of three bytes or fewer with `InvalidBaseUri`; and one with accepted fields
/// that another account than `owner` asks for with `NotDomainOwner`. None of
/// the three changes the ledger.
pub proof fn lemma_create_token_refusals(
    state: LedgerView,
    owner: AccountId,
    who: AccountId,
    domain_id: DomainId,
    creator: AccountId,
    total_supply: Balance,
    base_uri: Seq<u8>,
)
    requires
        state.owns(owner, domain_id),
    ensures
        total_supply == 0 ==> state.create_token(
            who,
            domain_id,
            creator,
            total_supply,
            base_uri,
        ).result == Err::<Event, Error>(Error::InvalidTotalSupply),
        total_supply > 0 && base_uri.len() <= 3 ==> state.create_token(
            who,
            domain_id,
            creator,
            total_supply,
            base_uri,
        ).result == Err::<Event, Error>(Error::InvalidBaseUri),
        total_supply > 0 && base_uri.len() > 3 && who != owner ==> state.create_token(
            who,
            domain_id,
            creator,
            total_supply,
            base_uri,
        ).result == Err::<Event, Error>(Error::NotDomainOwner),
        total_supply == 0 || base_uri.len() <= 3 || who != owner ==> state.create_token(
            who,
            domain_id,
            creator,
            total_supply,
            base_uri,
        ).state == state,
{
}

/// Only the owner of a domain creates tokens in it and burns from its
/// holders: an accepted `create_token` or `burn_tokens` was called by the
/// account that owns the domain.
pub proof fn lemma_only_the_owner_is_obeyed(state: LedgerView, operation: Operation)
    requires
        state.accepts(operation),
    ensures
        operation matches Operation::CreateToken { who, domain_id, .. } ==> state.owns(
            who,
            domain_id,
        ),
        operation matches Operation::BurnTokens { who, domain_id, .. } ==> state.owns(
            who,
            domain_id,
        ),
{
}

/// An accepted `create_token` moves the counter of its domain on by exactly
/// one and gives the token the identifier at which the counter then stands.
pub proof fn lemma_create_token_takes_next_id(
    state: LedgerView,
    who: AccountId,
    domain_id: DomainId,
    creator: AccountId,
    total_supply: Balance,
    base_uri: Seq<u8>,
)
    requires
        state.create_token(who, domain_id, creator, total_supply, base_uri).result is Ok,
    ensures
        ({
            let outcome = state.create_token(who, domain_id, creator, total_supply, base_uri);
            let token_id = (state.domains[domain_id].next_token_id + 1) as TokenId;
            &&& state.domains[domain_id].next_token_id < TokenId::MAX
            &&& outcome.result == Ok::<Event, Error>(
                Event::TokenCreated(creator, domain_id, token_id, total_supply),
            )
            &&& outcome.state.domains[domain_id].next_token_id == token_id
            &&& outcome.state.tokens[(domain_id, token_id)] == (TokenView {
                base_uri,
                total_supply,
                creator,
            })
        }),
{
}

/// Of two tokens that were created in one domain in one history, the later
/// has the larger identifier: two tokens of a domain never share one, however
/// closely the calls follow each other.
pub proof fn lemma_token_ids_increase(
    start: LedgerView,
    operations: Seq<Operation>,
    first: int,
    second: int,
)
    requires
        start.inv(),
        0 <= first < second < operations.len(),
        operations[first] is CreateToken,
        operations[second] is CreateToken,
        operations[first]->CreateToken_domain_id == operations[second]->CreateToken_domain_id,
        replay(start, operations.take(first)).accepts(operations[first]),
        replay(start, operations.take(second)).accepts(operations[second]),
    ensures
        ({
            let domain_id = operations[first]->CreateToken_domain_id;
            replay(start, operations.take(first)).domains[domain_id].next_token_id + 1 < replay(
                start,
                operations.take(second),
            ).domains[domain_id].next_token_id + 1
        }),
{
    let domain_id = operations[first]->CreateToken_domain_id;
    let before = replay(start, operations.take(first));
    let upto = operations.take(second);
    assert(upto.take(first + 1) =~= operations.take(first + 1));
    assert(operations.take(first + 1).drop_last() =~= operations.take(first));
    lemma_replay_keeps_inv(start, operations.take(first));
    assert(before.after(operations[first]).domains.contains_key(domain_id));
    lemma_replay_keeps_records(start, upto, first + 1);
}

/// What one operation does to one balance: it adds what it credits and takes
/// what it debits, and nothing else.
pub proof fn lemma_operation_moves_balance(
    state: LedgerView,
    operation: Operation,
    holder: AccountId,
    domain_id: DomainId,
    token_id: TokenId,
)
    requires
        state.inv(),
    ensures
        state.after(operation).balance(holder, domain_id, token_id) == state.balance(
            holder,
            domain_id,
            token_id,
        ) + state.credits(operation, holder, domain_id, token_id) - state.debits(
            operation,
            holder,
            domain_id,
            token_id,
        ),
{
}

/// After any history a balance is what it was at the start, plus all that
/// was minted to the holder, less all that was burnt from the holder. It is
/// never negative: an operation that would take it below zero, or above the
/// range of a balance, is refused as a whole and counts for nothing.
pub proof fn lemma_balance_is_credits_less_debits(
    start: LedgerView,
    operations: Seq<Operation>,
    holder: AccountId,
    domain_id: DomainId,
    token_id: TokenId,
)
    requires
        start.inv(),
    ensures
        replay(start, operations).balance(holder, domain_id, token_id) == start.balance(
            holder,
            domain_id,
            token_id,
        ) + total_credits(start, operations, holder, domain_id, token_id) - total_debits(
            start,
            operations,
            holder,
            domain_id,
            token_id,
        ),
        0 <= start.balance(holder, domain_id, token_id) + total_credits(
            start,
            operations,
            holder,
            domain_id,
            token_id,
        ) - total_debits(start, operations, holder, domain_id, token_id) <= Balance::MAX,
    decreases operations.len(),
{
    if operations.len() > 0 {
        let shorter = operations.drop_last();
        lemma_balance_is_credits_less_debits(start, shorter, holder, domain_id, token_id);
        lemma_replay_keeps_inv(start, shorter);
        lemma_operation_moves_balance(
            replay(start, shorter),
            operations.last(),
            holder,
            domain_id,
            token_id,
        );
    }
}

/// In a ledger that started empty, a balance is all that was minted to the
/// holder less all that was burnt from the holder.
pub proof fn lemma_balance_from_empty(
    operations: Seq<Operation>,
    holder: AccountId,
    domain_id: DomainId,
    token_id: TokenId,
)
    ensures
        replay(LedgerView::empty(), operations).balance(holder, domain_id, token_id)
            == total_credits(LedgerView::empty(), operations, holder, domain_id, token_id)
            - total_debits(LedgerView::empty(), operations, holder, domain_id, token_id),
{
    lemma_balance_is_credits_less_debits(
        LedgerView::empty(),
        operations,
        holder,
        domain_id,
        token_id,
    );
}

/// The counter of domains moves only when a domain is created, and then by
/// exactly one. The counter of a domain moves only when a token is created in
/// that domain, and then by exactly one. No counter is ever reset or moved
/// back.
pub proof fn lemma_counters_move_by_one(
    state: LedgerView,
    operation: Operation,
    domain_id: DomainId,
)
    requires
        state.inv(),
        state.domains.contains_key(domain_id),
    ensures
        state.after(operation).next_domain_id == state.next_domain_id + (if operation
            is CreateDomain && state.accepts(operation) {
            1int
        } else {
            0int
        }),
        state.after(operation).domains[domain_id].next_token_id
            == state.domains[domain_id].next_token_id + (if operation is CreateToken
            && operation->CreateToken_domain_id == domain_id && state.accepts(operation) {
            1int
        } else {
            0int
        }),
{
}

/// Where two states differ in what at most one account holds of a token, what
/// all accounts below `bound` hold of it differs by as much, if that account
/// is among them.
proof fn lemma_held_below_after_one_change(
    before: LedgerView,
    after: LedgerView,
    holder: AccountId,
    domain_id: DomainId,
    token_id: TokenId,
    bound: nat,
)
    requires
        bound <= 0x1_0000_0000_0000_0000,
        forall|other: AccountId|
            other != holder ==> #[trigger] after.balance(other, domain_id, token_id)
                == before.balance(other, domain_id, token_id),
    ensures
        held_below(after, domain_id, token_id, bound) == held_below(
            before,
            domain_id,
            token_id,
            bound,
        ) + (if holder < bound {
            after.balance(holder, domain_id, token_id) - before.balance(
                holder,
                domain_id,
                token_id,
            )
        } else {
            0
        }),
    decreases bound,
{
    if bound > 0 {
        lemma_held_below_after_one_change(
            before,
            after,
            holder,
            domain_id,
            token_id,
            (bound - 1) as nat,
        );
    }
}

/// In a ledger in which nothing has happened, nothing is in circulation.
proof fn lemma_nothing_held_in_empty(domain_id: DomainId, token_id: TokenId, bound: nat)
    ensures
        held_below(LedgerView::empty(), domain_id, token_id, bound) == 0,
    decreases bound,
{
    if bound > 0 {
        lemma_nothing_held_in_empty(domain_id, token_id, (bound - 1) as nat);
    }
}

/// What one operation does to the circulation of a token: it adds what it
/// mints of the token and takes what it burns of it.
pub proof fn lemma_operation_moves_circulation(
    state: LedgerView,
    operation: Operation,
    domain_id: DomainId,
    token_id: TokenId,
)
    requires
        state.inv(),
    ensures
        circulating(state.after(operation), domain_id, token_id) == circulating(
            state,
            domain_id,
            token_id,
        ) + state.credits(operation, operation.holder(), domain_id, token_id) - state.debits(
            operation,
            operation.holder(),
            domain_id,
            token_id,
        ),
{
    let holder = operation.holder();
    let next = state.after(operation);
    assert forall|other: AccountId| other != holder implies #[trigger] next.balance(
        other,
        domain_id,
        token_id,
    ) == state.balance(other, domain_id, token_id) by {
        lemma_operation_moves_balance(state, operation, other, domain_id, token_id);
    }
    lemma_operation_moves_balance(state, operation, holder, domain_id, token_id);
    lemma_held_below_after_one_change(
        state,
        next,
        holder,
        domain_id,
        token_id,
        0x1_0000_0000_0000_0000,
    );
}

/// After any history, what all accounts together hold of a token is what
/// they held at the start, plus all that was minted of the token, less all
/// that was burnt of it.
pub proof fn lemma_circulation_is_minted_less_burnt(
    start: LedgerView,
    operations: Seq<Operation>,
    domain_id: DomainId,
    token_id: TokenId,
)
    requires
        start.inv(),
    ensures
        circulating(replay(start, operations), domain_id, token_id) == circulating(
            start,
            domain_id,
            token_id,
        ) + total_minted(start, operations, domain_id, token_id) - total_burnt(
            start,
            operations,
            domain_id,
            token_id,
        ),
    decreases operations.len(),
{
    if operations.len() > 0 {
        let shorter = operations.drop_last();
        lemma_circulation_is_minted_less_burnt(start, shorter, domain_id, token_id);
        lemma_replay_keeps_inv(start, shorter);
        lemma_operation_moves_circulation(
            replay(start, shorter),
            operations.last(),
            domain_id,
            token_id,
        );
    }
}

/// In a ledger that started empty, what all accounts together hold of a token
/// is all that was minted of it less all that was burnt of it.
pub proof fn lemma_circulation_from_empty(
    operations: Seq<Operation>,
    domain_id: DomainId,
    token_id: TokenId,
)
    ensures
        circulating(replay(LedgerView::empty(), operations), domain_id, token_id) == total_minted(
            LedgerView::empty(),
            operations,
            domain_id,
            token_id,
        ) - total_burnt(LedgerView::empty(), operations, domain_id, token_id),
{
    lemma_nothing_held_in_empty(domain_id, token_id, 0x1_0000_0000_0000_0000);
    lemma_circulation_is_minted_less_burnt(
        LedgerView::empty(),
        operations,
        domain_id,
        token_id,
    );
}

} // verus!
