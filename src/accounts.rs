use vstd::prelude::*;

use crate::state::Pubkey;

verus! {

// What each instruction reads of the accounts handed to it, besides the
// configuration and game records themselves.

pub struct Initialize {
    pub admin: Pubkey,
    pub fee_receiver: Pubkey,
    pub config_bump: u8,
}

pub struct CreateGame {
    pub creator: Pubkey,
    pub creator_lamports: u64,
    pub fee_receiver: Pubkey,
    pub game_bump: u8,
}

pub struct JoinGame {
    pub player: Pubkey,
    pub player_lamports: u64,
    pub fee_receiver: Pubkey,
}

/// The signer, the vault's balance, and the keys of the extra accounts
/// that refunds are credited to, in the order they were supplied.
pub struct AdminWithdrawPlayer {
    pub admin: Pubkey,
    pub vault_lamports: u64,
    pub remaining_accounts: Vec<Pubkey>,
}

pub struct AdminCancelGame {
    pub admin: Pubkey,
    pub vault_lamports: u64,
    pub remaining_accounts: Vec<Pubkey>,
}

pub struct AdminPayoutWinners {
    pub admin: Pubkey,
    pub vault_lamports: u64,
    pub remaining_accounts: Vec<Pubkey>,
}

pub struct AdminEmergencyWithdraw {
    pub admin: Pubkey,
    pub vault_lamports: u64,
    pub remaining_accounts: Vec<Pubkey>,
}

pub struct UpdateConfig {
    pub admin: Pubkey,
}

} // verus!
