//! What an operation asks the asset-transfer executor to do.
use vstd::prelude::*;

verus! {

#[derive(Clone, Copy, Debug, PartialEq, Eq, Structural)]
pub struct DepositEffects {
    pub shares_to_mint: u64,
    pub token_to_deposit: u64,
    pub crank_funds_to_deposit: u64,
}

#[derive(Clone, Copy, Debug, PartialEq, Eq, Structural)]
pub struct WithdrawEffects {
    pub shares_to_burn: u64,
    pub available_to_send_to_user: u64,
    pub invested_to_disinvest_ctokens: u64,
    pub invested_liquidity_to_send_to_user: u64,
    pub invested_liquidity_to_disinvest: u64,
}

#[derive(Clone, Copy, Debug, PartialEq, Eq, Structural)]
pub struct WithdrawPendingFeesEffects {
    pub available_to_send_to_user: u64,
    pub invested_to_disinvest_ctokens: u64,
    pub invested_liquidity_to_send_to_user: u64,
    pub invested_liquidity_to_disinvest: u64,
}

#[derive(Clone, Copy, Debug, PartialEq, Eq, Structural)]
pub enum InvestingDirection {
    Add,
    Subtract,
}

#[derive(Clone, Copy, Debug, PartialEq, Eq, Structural)]
pub struct InvestEffects {
    pub direction: InvestingDirection,
    pub liquidity_amount: u64,
    pub collateral_amount: u64,
    pub rounding_loss: u64,
}

impl Default for WithdrawEffects {
    fn default() -> (r: WithdrawEffects)
        ensures
            r == (WithdrawEffects {
                shares_to_burn: 0,
                available_to_send_to_user: 0,
                invested_to_disinvest_ctokens: 0,
                invested_liquidity_to_send_to_user: 0,
                invested_liquidity_to_disinvest: 0,
            }),
    {
        WithdrawEffects {
            shares_to_burn: 0,
            available_to_send_to_user: 0,
            invested_to_disinvest_ctokens: 0,
            invested_liquidity_to_send_to_user: 0,
            invested_liquidity_to_disinvest: 0,
        }
    }
}

impl Default for WithdrawPendingFeesEffects {
    fn default() -> (r: WithdrawPendingFeesEffects)
        ensures
            r == (WithdrawPendingFeesEffects {
                available_to_send_to_user: 0,
                invested_to_disinvest_ctokens: 0,
                invested_liquidity_to_send_to_user: 0,
                invested_liquidity_to_disinvest: 0,
            }),
    {
        WithdrawPendingFeesEffects {
            available_to_send_to_user: 0,
            invested_to_disinvest_ctokens: 0,
            invested_liquidity_to_send_to_user: 0,
            invested_liquidity_to_disinvest: 0,
        }
    }
}

} // verus!
