//! A fungible-token ledger: an account-balance store with payment-gated
//! registration, transfers, deposits, withdrawals, one-time genesis minting
//! and burning, verified to conserve value under every call order.
//!
//! The conservation invariant — the total supply equals the sum of all
//! registered balances — is part of every operation's contract, and the
//! global laws that follow from the contracts (transfers conserve supply,
//! registration is idempotent, a transfer and its reverse cancel, a rejected
//! notified transfer compensates in full) are proved once and for all in
//! [`laws`].

pub mod account;
pub mod error;
pub mod laws;
pub mod ledger;
pub mod notify;

pub use account::AccountEntry;
pub use error::LedgerError;
pub use ledger::{Ledger, UnregisterReceipt};
pub use notify::{HookOutcome, PendingTransfer};
