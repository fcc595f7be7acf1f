//! A pooled-deposit ledger: vaults that collect deposits from participants
//! until a capacity limit or a deadline closes them, with a per-participant
//! record of what each one has put in.
pub mod address;
pub mod error;
pub mod laws;
pub mod ledger;
pub mod state;
