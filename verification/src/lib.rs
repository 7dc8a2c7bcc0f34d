//! Accounting and rebalancing for a yield vault.
//!
//! Users deposit a base token and receive shares, each a claim on an equal
//! part of what the vault is worth: its idle balance and what it holds in up
//! to twenty-five lending reserves, less the fees it owes. The library keeps
//! the vault's ledger and computes, for every operation, what is to be moved
//! and how the ledger changes; it moves nothing itself.
//!
//! Amounts are whole tokens (`u64`) or fixed-point numbers with sixty binary
//! places ([`fraction::Fraction`]). Every rounding has a direction, chosen so
//! that what a user receives is rounded down and what a user owes is rounded
//! up.
//!
//! Each operation is specified by a function of the ledger, the reserves'
//! snapshots and the request, which the executable code is proved to
//! compute; [`laws`] and [`state::proportions`] prove what follows for all
//! inputs.
pub mod error;
pub mod fraction;
pub mod laws;
pub mod operations;
pub mod pubkey;
pub mod reserve;
pub mod state;
pub mod utils;

pub use crate::error::{KaminoVaultError, KaminoVaultResult};
