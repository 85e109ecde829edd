use ft_ledger::{Ledger, LedgerError, UnregisterReceipt};

const FEE: u128 = 10;

fn genesis(owner: &str, supply: u128) -> Ledger {
    let mut l = Ledger::new(FEE);
    let owner = owner.to_string();
    assert_eq!(l.mint_genesis(&owner, supply), Ok(()));
    l
}

#[test]
fn fresh_ledger_is_empty() {
    let l = Ledger::new(FEE);
    let a = "alice".to_string();
    assert_eq!(l.total_supply(), 0);
    assert_eq!(l.storage_fee(), FEE);
    assert!(!l.is_initialized());
    assert!(!l.is_registered(&a));
    assert_eq!(l.balance_of(&a), 0);
}

#[test]
fn genesis_mints_to_owner() {
    let a = "alice".to_string();
    let l = genesis("alice", 1_000_000);
    assert!(l.is_initialized());
    assert!(l.is_registered(&a));
    assert_eq!(l.balance_of(&a), 1_000_000);
    assert_eq!(l.total_supply(), 1_000_000);
}

#[test]
fn genesis_happens_only_once() {
    let a = "alice".to_string();
    let mut l = genesis("alice", 1_000_000);
    assert_eq!(l.mint_genesis(&a, 5), Err(LedgerError::AlreadyInitialized));
    assert_eq!(l.total_supply(), 1_000_000);
    assert_eq!(l.balance_of(&a), 1_000_000);
}

#[test]
fn genesis_overflow_is_refused() {
    let a = "alice".to_string();
    let b = "bob".to_string();
    let mut l = Ledger::new(FEE);
    assert_eq!(l.register(&a, FEE), Ok(0));
    assert_eq!(l.internal_deposit(&a, 1), Ok(()));
    assert_eq!(l.mint_genesis(&b, u128::MAX), Err(LedgerError::BalanceOverflow));
    assert!(!l.is_initialized());
    assert_eq!(l.total_supply(), 1);
}

#[test]
fn transfer_to_unregistered_fails_then_succeeds_after_register() {
    let a = "alice".to_string();
    let b = "bob".to_string();
    let mut l = genesis("alice", 1_000_000);
    assert_eq!(l.transfer(&a, &b, 300_000), Err(LedgerError::AccountNotRegistered));
    assert_eq!(l.balance_of(&a), 1_000_000);
    assert_eq!(l.register(&b, FEE), Ok(0));
    assert_eq!(l.transfer(&a, &b, 300_000), Ok(()));
    assert_eq!(l.balance_of(&a), 700_000);
    assert_eq!(l.balance_of(&b), 300_000);
    assert_eq!(l.total_supply(), 1_000_000);
}

#[test]
fn burn_reduces_supply_and_balance() {
    let a = "alice".to_string();
    let b = "bob".to_string();
    let mut l = genesis("alice", 1_000_000);
    assert_eq!(l.register(&b, FEE), Ok(0));
    assert_eq!(l.transfer(&a, &b, 300_000), Ok(()));
    assert_eq!(l.burn(&a, 700_000), Ok(()));
    assert_eq!(l.total_supply(), 300_000);
    assert_eq!(l.balance_of(&a), 0);
    assert_eq!(l.balance_of(&b), 300_000);
}

#[test]
fn unregister_zero_balance_refunds_fee_nonzero_is_refused() {
    let a = "alice".to_string();
    let b = "bob".to_string();
    let mut l = genesis("alice", 1_000_000);
    assert_eq!(l.register(&b, FEE), Ok(0));
    assert_eq!(l.transfer(&a, &b, 300_000), Ok(()));
    assert_eq!(l.burn(&a, 700_000), Ok(()));
    assert_eq!(
        l.unregister(&a, false),
        Ok(UnregisterReceipt::Safe { fee_refunded: FEE })
    );
    assert!(!l.is_registered(&a));
    assert_eq!(l.unregister(&b, false), Err(LedgerError::NonZeroBalance));
    assert!(l.is_registered(&b));
    assert_eq!(l.balance_of(&b), 300_000);
    assert_eq!(l.total_supply(), 300_000);
}

#[test]
fn unregister_unknown_account_fails() {
    let mut l = Ledger::new(FEE);
    let a = "alice".to_string();
    assert_eq!(l.unregister(&a, false), Err(LedgerError::AccountNotRegistered));
    assert_eq!(l.unregister(&a, true), Err(LedgerError::AccountNotRegistered));
}

#[test]
fn forced_unregister_burns_remaining_balance() {
    let a = "alice".to_string();
    let mut l = genesis("alice", 500);
    assert_eq!(
        l.unregister(&a, true),
        Ok(UnregisterReceipt::Burned { fee_refunded: FEE, burned: 500 })
    );
    assert!(!l.is_registered(&a));
    assert_eq!(l.balance_of(&a), 0);
    assert_eq!(l.total_supply(), 0);
}

#[test]
fn register_twice_refunds_second_deposit_in_full() {
    let a = "alice".to_string();
    let b = "bob".to_string();
    let mut l = genesis("alice", 1_000);
    assert_eq!(l.register(&b, FEE + 7), Ok(7));
    assert_eq!(l.balance_of(&b), 0);
    assert_eq!(l.register(&b, FEE + 7), Ok(FEE + 7));
    assert_eq!(l.balance_of(&b), 0);
    assert_eq!(l.total_supply(), 1_000);
    assert!(l.is_registered(&b));
}

#[test]
fn register_with_insufficient_deposit_fails() {
    let b = "bob".to_string();
    let mut l = Ledger::new(FEE);
    assert_eq!(l.register(&b, FEE - 1), Err(LedgerError::InsufficientStorageDeposit));
    assert!(!l.is_registered(&b));
}

#[test]
fn transfer_round_trip_restores_balances() {
    let x = "xenia".to_string();
    let y = "yuri".to_string();
    let mut l = genesis("xenia", 1_000);
    assert_eq!(l.register(&y, FEE), Ok(0));
    assert_eq!(l.transfer(&y, &x, 0), Err(LedgerError::ZeroAmount));
    assert_eq!(l.transfer(&x, &y, 400), Ok(()));
    assert_eq!(l.transfer(&y, &x, 400), Ok(()));
    assert_eq!(l.balance_of(&x), 1_000);
    assert_eq!(l.balance_of(&y), 0);
    assert_eq!(l.total_supply(), 1_000);
}

#[test]
fn transfer_error_cases() {
    let a = "alice".to_string();
    let b = "bob".to_string();
    let c = "carol".to_string();
    let mut l = genesis("alice", 1_000);
    assert_eq!(l.register(&b, FEE), Ok(0));
    assert_eq!(l.transfer(&a, &a, 5), Err(LedgerError::SelfTransfer));
    assert_eq!(l.transfer(&a, &b, 0), Err(LedgerError::ZeroAmount));
    assert_eq!(l.transfer(&c, &b, 5), Err(LedgerError::AccountNotRegistered));
    assert_eq!(l.transfer(&a, &b, 1_001), Err(LedgerError::InsufficientBalance));
    assert_eq!(l.balance_of(&a), 1_000);
    assert_eq!(l.balance_of(&b), 0);
    assert_eq!(l.total_supply(), 1_000);
}

#[test]
fn deposit_at_max_is_refused_and_balance_stays() {
    let a = "alice".to_string();
    let mut l = Ledger::new(FEE);
    assert_eq!(l.register(&a, FEE), Ok(0));
    assert_eq!(l.internal_deposit(&a, u128::MAX), Ok(()));
    assert_eq!(l.balance_of(&a), u128::MAX);
    assert_eq!(l.internal_deposit(&a, 1), Err(LedgerError::BalanceOverflow));
    assert_eq!(l.balance_of(&a), u128::MAX);
    assert_eq!(l.total_supply(), u128::MAX);
}

#[test]
fn deposit_and_withdraw_guard_registration() {
    let a = "alice".to_string();
    let mut l = Ledger::new(FEE);
    assert_eq!(l.internal_deposit(&a, 5), Err(LedgerError::AccountNotRegistered));
    assert_eq!(l.internal_withdraw(&a, 5), Err(LedgerError::AccountNotRegistered));
    assert_eq!(l.register(&a, FEE), Ok(0));
    assert_eq!(l.internal_deposit(&a, 5), Ok(()));
    assert_eq!(l.internal_withdraw(&a, 6), Err(LedgerError::InsufficientBalance));
    assert_eq!(l.internal_withdraw(&a, 5), Ok(()));
    assert_eq!(l.balance_of(&a), 0);
    assert_eq!(l.total_supply(), 0);
}

#[test]
fn burn_more_than_balance_fails() {
    let a = "alice".to_string();
    let b = "bob".to_string();
    let mut l = genesis("alice", 100);
    assert_eq!(l.burn(&a, 101), Err(LedgerError::InsufficientBalance));
    assert_eq!(l.burn(&b, 1), Err(LedgerError::AccountNotRegistered));
    assert_eq!(l.total_supply(), 100);
}

#[test]
fn transfer_overflow_is_refused_whole() {
    let a = "alice".to_string();
    let b = "bob".to_string();
    let mut l = Ledger::new(FEE);
    assert_eq!(l.register(&a, FEE), Ok(0));
    assert_eq!(l.register(&b, FEE), Ok(0));
    assert_eq!(l.internal_deposit(&a, u128::MAX - 1), Ok(()));
    assert_eq!(l.internal_deposit(&b, 1), Ok(()));
    // The conservation invariant makes a receiver-side overflow unreachable:
    // both balances fit under one total supply. Sender side still guards.
    assert_eq!(l.transfer(&a, &b, u128::MAX), Err(LedgerError::InsufficientBalance));
    assert_eq!(l.transfer(&a, &b, u128::MAX - 1), Ok(()));
    assert_eq!(l.balance_of(&b), u128::MAX);
}
