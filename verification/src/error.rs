//! The error taxonomy of the ledger. Every failing operation returns one of
//! these and leaves the ledger exactly as it was before the call.

use vstd::prelude::*;

verus! {

/// Why a ledger operation was refused. All of these are recoverable by the
/// caller; none leaves a partial mutation behind.
#[derive(Clone, Copy, Debug, PartialEq, Eq, Structural)]
pub enum LedgerError {
    /// The named account has not paid for a balance slot.
    AccountNotRegistered,
    /// The payment attached to a registration does not cover the storage fee.
    InsufficientStorageDeposit,
    /// Unregistration without `force` was asked of an account still holding value.
    NonZeroBalance,
    /// The account's balance is smaller than the amount to withdraw.
    InsufficientBalance,
    /// The operation would push a balance or the total supply past `u128::MAX`.
    BalanceOverflow,
    /// Sender and receiver of a transfer are the same account.
    SelfTransfer,
    /// A transfer of zero tokens was asked for.
    ZeroAmount,
    /// Genesis minting was attempted on a ledger that already minted.
    AlreadyInitialized,
}

} // verus!
