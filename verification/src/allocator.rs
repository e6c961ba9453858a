//! Identifier allocation.
//!
//! A counter is read, incremented and written back in one step. A step that
//! cannot increment the counter fails and leaves it as it was, so no
//! identifier is ever issued twice.

use crate::types::{DomainId, Error, TokenId};
use vstd::prelude::*;

verus! {

/// Issues the next domain identifier: the value at which the counter stands.
/// The counter then stands one higher. At the end of its range the counter
/// stays and the call fails with `DomainIdOverflow`.
pub fn get_next_domain_id(next_id: &mut DomainId) -> (result: Result<DomainId, Error>)
    ensures
        *old(next_id) < DomainId::MAX ==> result == Ok::<DomainId, Error>(*old(next_id))
            && *final(next_id) == *old(next_id) + 1,
        *old(next_id) == DomainId::MAX ==> result == Err::<DomainId, Error>(
            Error::DomainIdOverflow,
        ) && *final(next_id) == *old(next_id),
{
    let current_id: DomainId = *next_id;
    match current_id.checked_add(1) {
        Some(incremented) => {
            *next_id = incremented;
            Ok(current_id)
        },
        None => Err(Error::DomainIdOverflow),
    }
}

/// Issues the next token identifier of a domain: one more than the value at
/// which the domain's counter stands, which the counter then takes. The first
/// token of a domain so has the identifier one. At the end of its range the
/// counter stays and the call fails with `TokenIdOverflow`.
pub fn get_next_token_id(next_token_id: &mut TokenId) -> (result: Result<TokenId, Error>)
    ensures
        *old(next_token_id) < TokenId::MAX ==> result == Ok::<TokenId, Error>(
            (*old(next_token_id) + 1) as TokenId,
        ) && *final(next_token_id) == *old(next_token_id) + 1,
        *old(next_token_id) == TokenId::MAX ==> result == Err::<TokenId, Error>(
            Error::TokenIdOverflow,
        ) && *final(next_token_id) == *old(next_token_id),
{
    match next_token_id.checked_add(1) {
        Some(incremented) => {
            *next_token_id = incremented;
            Ok(incremented)
        },
        None => Err(Error::TokenIdOverflow),
    }
}

} // verus!
