//! A proportional-release payment ledger.
//!
//! A fixed roster of payees holds weighted claims ("shares") against a pool of
//! funds that accrues from external deposits. Each payee may repeatedly
//! withdraw the difference between their pro-rata entitlement over everything
//! ever received and what they have already withdrawn. The ledger computes how
//! much to move and emits a transfer instruction; observing the pool balance
//! and settling the transfer are the host's business.

pub mod accounting;
pub mod contract;
pub mod error;
pub mod msg;
pub mod state;
