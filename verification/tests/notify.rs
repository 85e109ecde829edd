use ft_ledger::{HookOutcome, Ledger, LedgerError};

const FEE: u128 = 10;

fn two_accounts() -> (Ledger, String, String) {
    let a = "alice".to_string();
    let b = "bob".to_string();
    let mut l = Ledger::new(FEE);
    assert_eq!(l.mint_genesis(&a, 1_000), Ok(()));
    assert_eq!(l.register(&b, FEE), Ok(0));
    (l, a, b)
}

#[test]
fn start_commits_the_transfer() {
    let (mut l, a, b) = two_accounts();
    let pending = l.transfer_and_notify_start(&a, &b, 300).unwrap();
    assert_eq!(pending.sender, a);
    assert_eq!(pending.receiver, b);
    assert_eq!(pending.amount, 300);
    // During the suspension other observers see the post-transfer state.
    assert_eq!(l.balance_of(&a), 700);
    assert_eq!(l.balance_of(&b), 300);
    assert_eq!(l.total_supply(), 1_000);
}

#[test]
fn start_fails_like_transfer() {
    let (mut l, a, _b) = two_accounts();
    let c = "carol".to_string();
    let e = l.transfer_and_notify_start(&a, &c, 300);
    assert!(e.is_err());
    assert_eq!(e.err(), Some(LedgerError::AccountNotRegistered));
    assert_eq!(l.balance_of(&a), 1_000);
}

#[test]
fn full_rejection_restores_both_balances() {
    let (mut l, a, b) = two_accounts();
    let pending = l.transfer_and_notify_start(&a, &b, 300).unwrap();
    let refunded = l.resolve_transfer(&pending, HookOutcome::Refund(300));
    assert_eq!(refunded, 300);
    assert_eq!(l.balance_of(&a), 1_000);
    assert_eq!(l.balance_of(&b), 0);
    assert_eq!(l.total_supply(), 1_000);
}

#[test]
fn unresponsive_hook_counts_as_full_rejection() {
    let (mut l, a, b) = two_accounts();
    let pending = l.transfer_and_notify_start(&a, &b, 300).unwrap();
    let refunded = l.resolve_transfer(&pending, HookOutcome::NoResponse);
    assert_eq!(refunded, 300);
    assert_eq!(l.balance_of(&a), 1_000);
    assert_eq!(l.balance_of(&b), 0);
}

#[test]
fn partial_refund_moves_back_only_the_unused_part() {
    let (mut l, a, b) = two_accounts();
    let pending = l.transfer_and_notify_start(&a, &b, 300).unwrap();
    let refunded = l.resolve_transfer(&pending, HookOutcome::Refund(100));
    assert_eq!(refunded, 100);
    assert_eq!(l.balance_of(&a), 800);
    assert_eq!(l.balance_of(&b), 200);
    assert_eq!(l.total_supply(), 1_000);
}

#[test]
fn full_acceptance_refunds_nothing() {
    let (mut l, a, b) = two_accounts();
    let pending = l.transfer_and_notify_start(&a, &b, 300).unwrap();
    let refunded = l.resolve_transfer(&pending, HookOutcome::Refund(0));
    assert_eq!(refunded, 0);
    assert_eq!(l.balance_of(&a), 700);
    assert_eq!(l.balance_of(&b), 300);
}

#[test]
fn refund_request_above_amount_is_capped() {
    let (mut l, a, b) = two_accounts();
    let pending = l.transfer_and_notify_start(&a, &b, 300).unwrap();
    let refunded = l.resolve_transfer(&pending, HookOutcome::Refund(u128::MAX));
    assert_eq!(refunded, 300);
    assert_eq!(l.balance_of(&a), 1_000);
    assert_eq!(l.balance_of(&b), 0);
}

#[test]
fn refund_is_capped_by_what_the_receiver_still_holds() {
    let (mut l, a, b) = two_accounts();
    let pending = l.transfer_and_notify_start(&a, &b, 300).unwrap();
    // The receiver spends most of it before the hook answers.
    assert_eq!(l.transfer(&b, &a, 250), Ok(()));
    let refunded = l.resolve_transfer(&pending, HookOutcome::NoResponse);
    assert_eq!(refunded, 50);
    assert_eq!(l.balance_of(&a), 1_000);
    assert_eq!(l.balance_of(&b), 0);
    assert_eq!(l.total_supply(), 1_000);
}

#[test]
fn refund_to_a_gone_sender_is_burned() {
    let (mut l, a, b) = two_accounts();
    let pending = l.transfer_and_notify_start(&a, &b, 300).unwrap();
    // The sender closes its account, burning its remaining 700, before the
    // hook answers; the refund then has nowhere to go and is burned too.
    assert!(l.unregister(&a, true).is_ok());
    assert_eq!(l.total_supply(), 300);
    let refunded = l.resolve_transfer(&pending, HookOutcome::NoResponse);
    assert_eq!(refunded, 300);
    assert!(!l.is_registered(&a));
    assert_eq!(l.balance_of(&a), 0);
    assert_eq!(l.balance_of(&b), 0);
    assert_eq!(l.total_supply(), 0);
}
