//! The protocol-wide configuration and its changes.
use crate::error::KaminoVaultError;
use crate::pubkey::Pubkey;
use vstd::prelude::*;

verus! {

/// One change to the global configuration.
#[derive(Clone, Copy, Debug, PartialEq, Eq)]
pub enum UpdateGlobalConfigMode {
    PendingAdmin(Pubkey),
    MinWithdrawalPenaltyLamports(u64),
    MinWithdrawalPenaltyBPS(u64),
}

/// What all vaults of the protocol share: who administers it, and the least
/// penalty that withdrawals are charged.
#[derive(Clone, Copy, Debug, PartialEq, Eq)]
pub struct GlobalConfig {
    pub global_admin: Pubkey,
    pub pending_admin: Pubkey,
    pub min_withdrawal_penalty_lamports: u64,
    pub min_withdrawal_penalty_bps: u64,
}

impl GlobalConfig {
    /// The configuration after `update`.
    pub open spec fn updated(self, update: UpdateGlobalConfigMode) -> GlobalConfig {
        match update {
            UpdateGlobalConfigMode::PendingAdmin(key) => GlobalConfig { pending_admin: key, ..self },
            UpdateGlobalConfigMode::MinWithdrawalPenaltyLamports(value) => GlobalConfig {
                min_withdrawal_penalty_lamports: value,
                ..self
            },
            UpdateGlobalConfigMode::MinWithdrawalPenaltyBPS(value) => GlobalConfig {
                min_withdrawal_penalty_bps: value,
                ..self
            },
        }
    }

    /// The first configuration: `admin` administers the protocol and is also
    /// the pending admin; no penalty is set.
    pub fn init(admin: Pubkey) -> (r: GlobalConfig)
        ensures
            r == (GlobalConfig {
                global_admin: admin,
                pending_admin: admin,
                min_withdrawal_penalty_lamports: 0,
                min_withdrawal_penalty_bps: 0,
            }),
    {
        GlobalConfig {
            global_admin: admin,
            pending_admin: admin,
            min_withdrawal_penalty_lamports: 0,
            min_withdrawal_penalty_bps: 0,
        }
    }

    /// Applies one change. Proposing an admin does not make it the admin: see
    /// `apply_pending_admin`.
    pub fn update_value(&mut self, update: UpdateGlobalConfigMode)
        ensures
            *final(self) == old(self).updated(update),
    {
        match update {
            UpdateGlobalConfigMode::PendingAdmin(key) => {
                self.pending_admin = key;
            },
            UpdateGlobalConfigMode::MinWithdrawalPenaltyLamports(value) => {
                self.min_withdrawal_penalty_lamports = value;
            },
            UpdateGlobalConfigMode::MinWithdrawalPenaltyBPS(value) => {
                self.min_withdrawal_penalty_bps = value;
            },
        }
    }

    /// Completes a transfer of the administration: the pending admin, and
    /// nobody else, makes itself the admin. Anyone else is refused with
    /// `AdminAuthorityIncorrect`, and nothing changes.
    pub fn apply_pending_admin(&mut self, signer: &Pubkey) -> (r: Result<(), KaminoVaultError>)
        ensures
            *signer == old(self).pending_admin ==> r is Ok && *final(self) == (GlobalConfig {
                global_admin: old(self).pending_admin,
                ..*old(self)
            }),
            *signer != old(self).pending_admin ==> r == Err::<(), KaminoVaultError>(
                KaminoVaultError::AdminAuthorityIncorrect,
            ) && *final(self) == *old(self),
    {
        if *signer == self.pending_admin {
            self.global_admin = self.pending_admin;
            Ok(())
        } else {
            Err(KaminoVaultError::AdminAuthorityIncorrect)
        }
    }
}

} // verus!
