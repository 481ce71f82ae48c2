//! Escrow for staked skill matches: configuration, the game lifecycle,
//! and the settlement arithmetic that decides every fund movement.
//!
//! Each instruction is a function from the records and the plain values of
//! the accounts it reads to the updated records, the transfers to perform
//! and the notification to emit. Performing the transfers is left to the
//! caller.
pub mod accounts;
pub mod events;
pub mod instructions;
pub mod laws;
pub mod state;
