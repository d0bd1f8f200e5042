//! Approval-token check for co-signing requests: HS256 approval tokens bound to
//! a canonical hash of a transaction's outer instructions, consumed once
//! through a JTI store.

pub mod error;
pub mod crypto;
pub mod token;
pub mod config;
pub mod canonical;
pub mod approval;
pub mod laws;
pub mod execute;
