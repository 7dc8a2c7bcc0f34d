//! Protocol-wide limits and time units.
use vstd::prelude::*;

verus! {

/// Max value for management fee that a vault manager can set.
pub const MAX_MGMT_FEE_BPS: u64 = 1000;

/// Length of a mean tropical year in seconds, rounded down.
pub const SECONDS_PER_YEAR_U64: u64 = 31556925;

/// Length of a mean tropical year in seconds, rounded up: the divisor of the
/// yearly management fee.
pub const SECONDS_PER_YEAR_CEIL: u128 = 31556926;

pub const SECONDS_PER_MINUTE: u64 = 60;

pub const SECONDS_PER_HOUR: u64 = SECONDS_PER_MINUTE * 60;

pub const SECONDS_PER_DAY: u64 = SECONDS_PER_HOUR * 24;

/// For the most expensive token this can go up to about one dollar.
pub const UPPER_LIMIT_MIN_WITHDRAW_AMOUNT: u64 = 1000;

/// Seed deposit made when a vault is created.
pub const INITIAL_DEPOSIT_AMOUNT: u64 = 1000;

pub const MAX_WITHDRAWAL_PENALTY_BPS: u64 = 1000;

pub const MAX_WITHDRAWAL_PENALTY_LAMPORTS: u64 = 10_000;

} // verus!
