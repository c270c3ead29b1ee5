//! A fungible-token accounting core: a balance ledger with overflow-safe
//! arithmetic, an account-registration protocol tied to storage staking,
//! and an atomic transfer protocol with event emission.
//!
//! The ledger is a single exclusively-owned value threaded through every
//! operation. It consumes plain values from its environment (attached
//! payment amounts, a storage byte price) and produces plain effects
//! (refund amounts, event records) for the environment to execute.

pub mod account;
pub mod balance;
pub mod error;
pub mod events;
pub mod laws;
pub mod ledger;
pub mod storage;
pub mod transfer;
