//! Checked arithmetic on balances.
//!
//! A balance never leaves its range: a mint that would exceed it and a burn
//! that would take it below zero both fail, and nothing wraps around.

use crate::types::{Balance, Error};
use vstd::prelude::*;

verus! {

/// The balance after `quantity` is minted onto `balance`, unless the sum
/// exceeds the range of a balance.
pub open spec fn minted(balance: Balance, quantity: Balance) -> Result<Balance, Error> {
    if balance + quantity <= Balance::MAX {
        Ok((balance + quantity) as Balance)
    } else {
        Err(Error::BalanceOverflow)
    }
}

/// The balance after `quantity` is burnt from `balance`, unless more is burnt
/// than the balance holds.
pub open spec fn burnt(balance: Balance, quantity: Balance) -> Result<Balance, Error> {
    if quantity <= balance {
        Ok((balance - quantity) as Balance)
    } else {
        Err(Error::BalanceOverflow)
    }
}

/// Adds `quantity` to `balance`, or fails with `BalanceOverflow`.
pub fn credit(balance: Balance, quantity: Balance) -> (result: Result<Balance, Error>)
    ensures
        result == minted(balance, quantity),
{
    match balance.checked_add(quantity) {
        Some(new_balance) => Ok(new_balance),
        None => Err(Error::BalanceOverflow),
    }
}

/// Takes `quantity` from `balance`, or fails with `BalanceOverflow` where the
/// balance holds less.
pub fn debit(balance: Balance, quantity: Balance) -> (result: Result<Balance, Error>)
    ensures
        result == burnt(balance, quantity),
{
    match balance.checked_sub(quantity) {
        Some(new_balance) => Ok(new_balance),
        None => Err(Error::BalanceOverflow),
    }
}

} // verus!
