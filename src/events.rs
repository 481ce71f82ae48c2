use vstd::prelude::*;

use crate::state::{GameTier, GameType, Pubkey, WinnerPayout};

verus! {

/// Every way an instruction can be refused.
#[derive(Clone, Copy, PartialEq, Eq, Structural, Debug)]
pub enum GameError {
    InvalidFeeBps,
    InvalidPrizeDistribution,
    AlreadyInThisGame,
    InsufficientFunds,
    InvalidGameId,
    GameNotJoinable,
    GameFull,
    GameAlreadyStarted,
    GameAlreadyCancelled,
    GameNotActive,
    PlayerNotInGame,
    UnauthorizedAccess,
    MissingPlayerAccount,
    MissingWinnerAccount,
    MissingRecipientAccount,
    InsufficientVaultBalance,
    InvalidPlace,
    InvalidFeeReceiver,
    InvalidWinnerCount,
}

impl GameError {
    /// The message that observers see for this error.
    pub fn message(&self) -> (r: &'static str) {
        match self {
            GameError::InvalidFeeBps => "Invalid fee basis points",
            GameError::InvalidPrizeDistribution => "Invalid prize distribution - must sum to 100%",
            GameError::AlreadyInThisGame => "Already joined this game",
            GameError::InsufficientFunds => "Insufficient funds",
            GameError::InvalidGameId => "Invalid game ID",
            GameError::GameNotJoinable => "Game is not joinable",
            GameError::GameFull => "Game is full",
            GameError::GameAlreadyStarted => "Game already started",
            GameError::GameAlreadyCancelled => "Game already cancelled",
            GameError::GameNotActive => "Game is not active",
            GameError::PlayerNotInGame => "Player not in game",
            GameError::UnauthorizedAccess => "Unauthorized access",
            GameError::MissingPlayerAccount => "Missing player account",
            GameError::MissingWinnerAccount => "Missing winner account",
            GameError::MissingRecipientAccount => "Missing recipient account",
            GameError::InsufficientVaultBalance => "Insufficient vault balance",
            GameError::InvalidPlace => "Invalid winner place",
            GameError::InvalidFeeReceiver => "Fee receiver does not match the configuration",
            GameError::InvalidWinnerCount => "A duel has exactly one winner",
        }
    }
}

/// What a player pays to take a seat: `stake` into the vault and `fee` to
/// `fee_receiver`.
#[derive(Clone, Copy, Debug)]
pub struct StakeCharge {
    pub stake: u64,
    pub fee: u64,
    pub fee_receiver: Pubkey,
}

/// One debit of the vault, credited to `remaining_accounts[index]`,
/// whose key is `recipient`.
#[derive(Clone, Copy, Debug)]
pub struct Payout {
    pub index: usize,
    pub recipient: Pubkey,
    pub amount: u64,
}

/// Sum of the amounts of a list of payouts.
pub open spec fn payouts_total(payouts: Seq<Payout>) -> int
    decreases payouts.len(),
{
    if payouts.len() == 0 {
        0
    } else {
        payouts_total(payouts.drop_last()) + payouts.last().amount
    }
}

pub struct GameCreated {
    pub game_id: u64,
    pub creator: Pubkey,
    pub game_type: GameType,
    pub tier: GameTier,
    pub stake_amount: u64,
}

pub struct PlayerJoined {
    pub game_id: u64,
    pub player: Pubkey,
    pub players_count: u8,
}

pub struct GameStarted {
    pub game_id: u64,
    pub players: Vec<Pubkey>,
}

pub struct PlayerWithdrawn {
    pub game_id: u64,
    pub player: Pubkey,
    pub refund_amount: u64,
}

pub struct GameCancelled {
    pub game_id: u64,
    pub refunded_players: u8,
}

pub struct GameCompleted {
    pub game_id: u64,
    pub winners: Vec<WinnerPayout>,
}

pub struct EmergencyWithdraw {
    pub recipient: Pubkey,
    pub amount: u64,
}

} // verus!
