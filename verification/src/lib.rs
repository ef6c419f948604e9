//! A stake-weighted governance engine.
//!
//! Holders stake a fungible token into a pool and receive proportional
//! shares; the implied token balance backs votes on polls, which move
//! through a lifecycle state machine and, once passed, dispatch an ordered
//! batch of external calls.
//!
//! The engine itself is pure: every operation takes the full governance
//! state by `&mut` reference together with the external facts it needs (the
//! current time and the pool's live token balance) and either applies its
//! whole effect or returns an error with the state untouched. Reading the
//! pool balance, validating bech32 addresses, wire formats and message
//! routing live outside this crate.

pub mod batch;
pub mod commands;
pub mod decimal;
pub mod error;
pub mod keys;
pub mod laws;
pub mod math;
pub mod queries;
pub mod store;
pub mod types;
pub mod validate;
