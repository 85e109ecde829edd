//! The ledger's global laws, proved once and for all from the operations'
//! contracts: conservation of value under transfers, idempotent registration,
//! transfer round-trips, and the boundary and compensation behaviour of
//! deposits and notified transfers.

use vstd::prelude::*;

use crate::account::{index_of, lemma_balance_le_sum, lemma_two_balances_le_sum, sum_balances};
use crate::error::LedgerError;
use crate::ledger::{
    deposit_post, register_post, transfer_ok, transfer_post, Ledger,
};
use crate::notify::{requested_refund, resolve_post, HookOutcome};

verus! {

/// In every well-formed ledger the total supply is exactly the sum of the
/// balances of the registered accounts — the slot sequence holds precisely
/// one slot per registered account, and `sum_balances` adds them all. Every
/// operation of the ledger preserves well-formedness, so this holds in every
/// reachable state.
pub proof fn lemma_supply_is_sum_of_balances(l: Ledger)
    requires
        l.wf(),
    ensures
        l.supply() as int == sum_balances(l.accounts()),
{
}

/// One step of the conservation law: a `transfer` call, whether it succeeds
/// or fails, never changes the total supply.
pub proof fn lemma_transfer_preserves_supply(
    pre: Ledger,
    post: Ledger,
    s: Seq<char>,
    r: Seq<char>,
    amount: u128,
    res: Result<(), LedgerError>,
)
    requires
        transfer_post(pre, post, s, r, amount, res),
    ensures
        post.supply() == pre.supply(),
{
}

/// A sequence of ledger states each reached from the one before it by a
/// `transfer` call with the matching arguments and result.
pub open spec fn transfer_trace(
    states: Seq<Ledger>,
    calls: Seq<(Seq<char>, Seq<char>, u128)>,
    results: Seq<Result<(), LedgerError>>,
) -> bool {
    &&& states.len() == calls.len() + 1
    &&& results.len() == calls.len()
    &&& (forall|k: int|
        0 <= k < calls.len() ==> transfer_post(
            states[k],
            states[k + 1],
            (#[trigger] calls[k]).0,
            calls[k].1,
            calls[k].2,
            results[k],
        ))
}

/// No sequence of `transfer` calls changes the total supply: every state a
/// chain of transfers reaches carries the supply the chain started with.
pub proof fn lemma_transfer_sequence_preserves_supply(
    states: Seq<Ledger>,
    calls: Seq<(Seq<char>, Seq<char>, u128)>,
    results: Seq<Result<(), LedgerError>>,
)
    requires
        transfer_trace(states, calls, results),
    ensures
        forall|k: int| 0 <= k < states.len() ==> (#[trigger] states[k]).supply()
            == states[0].supply(),
{
    assert forall|k: int| 0 <= k < states.len() implies (#[trigger] states[k]).supply()
        == states[0].supply() by {
        lemma_supply_at(states, calls, results, k);
    }
}

/// Induction step for the trace law: supply is unchanged up to position `k`.
proof fn lemma_supply_at(
    states: Seq<Ledger>,
    calls: Seq<(Seq<char>, Seq<char>, u128)>,
    results: Seq<Result<(), LedgerError>>,
    k: int,
)
    requires
        transfer_trace(states, calls, results),
        0 <= k < states.len(),
    ensures
        states[k].supply() == states[0].supply(),
    decreases k,
{
    if k > 0 {
        lemma_supply_at(states, calls, results, k - 1);
        assert(transfer_post(
            states[k - 1],
            states[k],
            calls[k - 1].0,
            calls[k - 1].1,
            calls[k - 1].2,
            results[k - 1],
        ));
    }
}

/// Registering twice is as registering once: when each call attaches at
/// least the fee, the second call refunds its whole attached payment and
/// leaves the ledger — balances included — exactly as the first call left it.
pub proof fn lemma_register_idempotent(
    l0: Ledger,
    l1: Ledger,
    l2: Ledger,
    a: Seq<char>,
    d1: u128,
    d2: u128,
    r1: Result<u128, LedgerError>,
    r2: Result<u128, LedgerError>,
)
    requires
        register_post(l0, l1, a, d1, r1),
        d1 >= l0.fee(),
        register_post(l1, l2, a, d2, r2),
        d2 >= l1.fee(),
    ensures
        r2 == Ok::<u128, LedgerError>(d2),
        l2 == l1,
{
    if !l0.registered(a) {
        assert(l1.registered(a));
    }
}

/// A transfer followed by its exact reverse restores every balance: after
/// `transfer(x, y, n)` succeeds, `transfer(y, x, n)` succeeds too, and every
/// account — the two involved and all others — holds what it held at the
/// start.
pub proof fn lemma_transfer_round_trip(
    l0: Ledger,
    l1: Ledger,
    l2: Ledger,
    x: Seq<char>,
    y: Seq<char>,
    n: u128,
    r2: Result<(), LedgerError>,
)
    requires
        l0.wf(),
        transfer_post(l0, l1, x, y, n, Ok::<(), LedgerError>(())),
        transfer_post(l1, l2, y, x, n, r2),
    ensures
        r2 == Ok::<(), LedgerError>(()),
        forall|b: Seq<char>| l2.balance(b) == l0.balance(b),
        forall|b: Seq<char>| l2.registered(b) == l0.registered(b),
        l2.supply() == l0.supply(),
{
    assert(transfer_ok(l0, x, y, n));
    assert(l1.balance(y) >= n);
    assert(l1.balance(x) + n == l0.balance(x));
    assert(transfer_ok(l1, y, x, n));
    assert forall|b: Seq<char>| l2.balance(b) == l0.balance(b) by {
        if b != x && b != y {
            assert(l2.balance(b) == l1.balance(b));
        }
    }
}

/// The conservation invariant shields transfers from receiver-side overflow:
/// in a well-formed ledger two distinct balances fit under one total supply,
/// so a transfer that clears the explicit preconditions — distinct accounts,
/// a positive amount covered by the sender, a registered receiver — always
/// succeeds; the `BalanceOverflow` refusal of `transfer` is unreachable.
pub proof fn lemma_wf_transfer_never_overflows(
    pre: Ledger,
    s: Seq<char>,
    r: Seq<char>,
    amount: u128,
)
    requires
        pre.wf(),
        s != r,
        amount > 0,
        pre.registered(s),
        pre.balance(s) >= amount,
        pre.registered(r),
    ensures
        transfer_ok(pre, s, r, amount),
{
    let i = index_of(pre.accounts(), s);
    let j = index_of(pre.accounts(), r);
    assert(0 <= i < pre.accounts().len() && pre.accounts()[i].id@ == s);
    assert(0 <= j < pre.accounts().len() && pre.accounts()[j].id@ == r);
    lemma_two_balances_le_sum(pre.accounts(), i, j);
}

/// Depositing a positive amount into an account already at `u128::MAX` is
/// refused with `BalanceOverflow` and moves nothing: such a balance forces
/// the whole supply to sit in that one account, so any further deposit would
/// push the supply past the representable range.
pub proof fn lemma_deposit_at_max_overflows(
    pre: Ledger,
    post: Ledger,
    a: Seq<char>,
    amount: u128,
    r: Result<(), LedgerError>,
)
    requires
        pre.wf(),
        pre.balance(a) == u128::MAX,
        amount > 0,
        deposit_post(pre, post, a, amount, r),
    ensures
        r == Err::<(), LedgerError>(LedgerError::BalanceOverflow),
        post == pre,
        post.balance(a) == u128::MAX,
{
    assert(pre.registered(a));
    let i = index_of(pre.accounts(), a);
    assert(0 <= i < pre.accounts().len() && pre.accounts()[i].id@ == a);
    lemma_balance_le_sum(pre.accounts(), i);
    assert(pre.supply() == u128::MAX);
}

/// A notified transfer whose receiver rejects it in full — or whose hook
/// never answers — compensates completely: once settlement runs with nothing
/// else in between, sender and receiver (and everyone else) hold exactly
/// their pre-call balances, and the supply is untouched.
pub proof fn lemma_rejected_notify_restores(
    l0: Ledger,
    l1: Ledger,
    l2: Ledger,
    snd: Seq<char>,
    rcv: Seq<char>,
    amount: u128,
    outcome: HookOutcome,
    refunded: u128,
)
    requires
        l0.wf(),
        transfer_post(l0, l1, snd, rcv, amount, Ok::<(), LedgerError>(())),
        resolve_post(l1, l2, snd, rcv, amount, outcome, refunded),
        requested_refund(outcome, amount) == amount,
    ensures
        refunded == amount,
        l2.balance(snd) == l0.balance(snd),
        l2.balance(rcv) == l0.balance(rcv),
        forall|b: Seq<char>| l2.balance(b) == l0.balance(b),
        forall|b: Seq<char>| l2.registered(b) == l0.registered(b),
        l2.supply() == l0.supply(),
{
    assert(transfer_ok(l0, snd, rcv, amount));
    assert(l1.balance(rcv) == l0.balance(rcv) + amount);
    assert(l1.registered(snd));
    assert forall|b: Seq<char>| l2.balance(b) == l0.balance(b) by {
        if b != snd && b != rcv {
            assert(l2.balance(b) == l1.balance(b));
        }
    }
}

} // verus!
