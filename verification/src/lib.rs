//! A deterministic, namespaced multi-asset ledger.
//!
//! An account creates a *domain*, a namespace that it owns. The owner creates
//! *tokens* in the domain, each minted once to a recipient, and may later burn
//! quantities of a token from any holder.
//!
//! - `types`: identifiers, quantities, errors and events.
//! - `allocator`: the counters from which identifiers are issued.
//! - `balance`: checked arithmetic on balances.
//! - `registry`: the records of domains and tokens.
//! - `rules`: what each operation decides, from plain values to plain values.
//! - `model`: the state of a ledger and what each operation does to it.
//! - `ledger`: a ledger with its tables in memory.
//! - `history`: what holds over every sequence of operations.
//! - `ownable`: the interface of a thing with one owner.

pub mod allocator;
pub mod balance;
pub mod history;
pub mod ledger;
pub mod model;
pub mod ownable;
pub mod registry;
pub mod rules;
mod tables;
pub mod types;

pub use ledger::Ledger;
pub use ownable::Ownable;
pub use registry::{Domain, Token};
pub use types::{AccountId, Balance, DomainId, Error, Event, TokenId};
