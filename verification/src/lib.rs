//! # Agent wallet
//!
//! Give an AI agent a budget, not your keys.
//!
//! The owner funds a vault and issues a delegation to an agent's session key
//! carrying a policy: per-transaction cap, lifetime cap, a tumbling-window rate
//! limit, an expiry, a destination allowlist, a program allowlist and instant
//! revocation. Every spend is checked against that policy, and an arbitrary,
//! unparsed instruction run on the vault's behalf is bounded by measuring what
//! left the vault.
//!
//! This crate is the verified core of that program: the policy, the
//! byte-level reading of token accounts, the before/after guard, and each
//! instruction as a function from account state to new account state plus the
//! token movement or call the runtime must perform.

pub mod errors;
pub mod keys;
pub mod pda;
pub mod state;
pub mod guard;
pub mod program;
pub mod spike;
