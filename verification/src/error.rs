//! The ways in which a vault operation can be refused.
use vstd::prelude::*;

verus! {

#[derive(Clone, Copy, Debug, PartialEq, Eq, Structural)]
pub enum KaminoVaultError {
    /// Cannot deposit zero tokens.
    DepositAmountsZero,
    /// Post check failed on shares issued.
    SharesIssuedAmountDoesNotMatch,
    /// A fixed-point operation left the representable range.
    MathOverflow,
    /// A whole amount did not fit in 64 bits.
    IntegerOverflow,
    /// Withdrawn amount is below minimum.
    WithdrawAmountBelowMinimum,
    TooMuchLiquidityToWithdraw,
    ReserveAlreadyExists,
    ReserveNotPartOfAllocations,
    CouldNotDeserializeAccountAsReserve,
    ReserveNotProvidedInTheAccounts,
    ReserveAccountAndKeyMismatch,
    OutOfRangeOfReserveIndex,
    CannotFindReserveInAllocations,
    /// Invested amount is below minimum.
    InvestAmountBelowMinimum,
    AdminAuthorityIncorrect,
    BaseVaultAuthorityIncorrect,
    BaseVaultAuthorityBumpIncorrect,
    TokenMintIncorrect,
    TokenMintDecimalsIncorrect,
    TokenVaultIncorrect,
    SharesMintDecimalsIncorrect,
    SharesMintIncorrect,
    InitialAccountingIncorrect,
    /// Reserve is stale and must be refreshed before any operation.
    ReserveIsStale,
    /// Not enough liquidity disinvested to send to user.
    NotEnoughLiquidityDisinvestedToSendToUser,
    /// BPS value is greater than 10000.
    BPSValueTooBig,
    /// Deposited amount is below minimum.
    DepositAmountBelowMinimum,
    /// Vault has no space for new reserves.
    ReserveSpaceExhausted,
    /// Cannot withdraw from empty vault.
    CannotWithdrawFromEmptyVault,
    TokensDepositedAmountDoesNotMatch,
    /// Amount to withdraw does not match.
    AmountToWithdrawDoesNotMatch,
    /// Liquidity to withdraw does not match.
    LiquidityToWithdrawDoesNotMatch,
    /// User received amount does not match.
    UserReceivedAmountDoesNotMatch,
    /// Shares burned amount does not match.
    SharesBurnedAmountDoesNotMatch,
    /// Disinvested liquidity amount does not match.
    DisinvestedLiquidityAmountDoesNotMatch,
    SharesMintedAmountDoesNotMatch,
    /// AUM decreased after invest.
    AUMDecreasedAfterInvest,
    /// AUM is below pending fees.
    AUMBelowPendingFees,
    /// Deposit amount results in 0 shares.
    DepositAmountsZeroShares,
    /// Withdraw amount results in 0 shares.
    WithdrawResultsInZeroShares,
    /// Cannot withdraw zero shares.
    CannotWithdrawZeroShares,
    /// Management fee is greater than maximum allowed.
    ManagementFeeGreaterThanMaxAllowed,
    /// Vault assets under management are empty.
    VaultAUMZero,
    /// Missing reserve for batch refresh.
    MissingReserveForBatchRefresh,
    /// Min withdraw amount is too big.
    MinWithdrawAmountTooBig,
    /// Invest is called too soon after last invest.
    InvestTooSoon,
    /// Wrong admin or allocation admin.
    WrongAdminOrAllocationAdmin,
    /// Reserve has non-zero allocation or ctokens so cannot be removed.
    ReserveHasNonZeroAllocationOrCTokens,
    /// Deposit amount is greater than requested amount.
    DepositAmountGreaterThanRequestedAmount,
    /// Withdraw amount is less than withdrawal penalty.
    WithdrawAmountLessThanWithdrawalPenalty,
    /// Cannot withdraw 0 lamports.
    CannotWithdrawZeroLamports,
    /// Cannot initialize global config because there is no upgrade authority to the program.
    NoUpgradeAuthority,
    /// Withdrawal fee BPS is greater than maximum allowed.
    WithdrawalFeeBPSGreaterThanMaxAllowed,
    /// Withdrawal fee lamports is greater than maximum allowed.
    WithdrawalFeeLamportsGreaterThanMaxAllowed,
    /// Reserve is not whitelisted.
    ReserveNotWhitelisted,
    /// Invalid bool-like value passed in (should be 0 or 1).
    InvalidBoolLikeValue,
    /// A configuration payload is not the encoding of a value of the field's type.
    MalformedConfigValue,
    /// Two balances that must agree after an invest differ.
    RequireEqViolated,
}

pub type KaminoVaultResult<T = ()> = Result<T, KaminoVaultError>;

} // verus!
