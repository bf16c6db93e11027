//! A minimal raffle-entry ledger.
//!
//! The library records how many times each participant address has been
//! entered into a raffle and enforces an authorization rule on who may
//! enter whose address: any address may enter itself, and only the owner
//! recorded at initialization may enter an address other than its own.

pub mod contract;
pub mod error;
pub mod laws;
pub mod msg;
pub mod response;
pub mod state;

pub use error::ContractError;
