use vstd::prelude::*;

use crate::account::AccountId;

verus! {

/// Record of tokens minted into an owner's balance, emitted once by
/// ledger construction.
#[derive(Debug)]
pub struct MintEvent {
    pub owner: AccountId,
    pub amount: u128,
    pub memo: Option<String>,
}

/// Record of a committed balance transfer, for external observers.
#[derive(Debug)]
pub struct TransferEvent {
    pub sender: AccountId,
    pub receiver: AccountId,
    pub amount: u128,
    pub memo: Option<String>,
}

/// Record of tokens burned out of an owner's balance, which reduces the
/// total supply.
#[derive(Debug)]
pub struct BurnEvent {
    pub owner: AccountId,
    pub amount: u128,
    pub memo: Option<String>,
}

} // verus!
