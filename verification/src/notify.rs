//! Transfer with receiver notification, as an explicit two-phase protocol.
//!
//! The ledger cannot reserve value pending an external decision, so the
//! transfer commits locally first (`transfer_and_notify_start`); the caller
//! then delivers the payload to the receiver's hook — outside this crate —
//! and settles with `resolve_transfer`, handing in what the hook answered.
//! A hook that never answers is treated as a full rejection, so no transfer
//! stays in limbo. During the suspension other operations observe the
//! post-transfer balances.

use vstd::prelude::*;

use crate::error::LedgerError;
use crate::ledger::{deposit_post, transfer_err, transfer_ok, transfer_post, withdraw_post, Ledger};

verus! {

/// A committed transfer awaiting the receiver hook's answer.
pub struct PendingTransfer {
    pub sender: String,
    pub receiver: String,
    pub amount: u128,
}

/// What came back from the receiver hook.
#[derive(Clone, Copy, Debug, PartialEq, Eq, Structural)]
pub enum HookOutcome {
    /// The hook answered, asking for this much of the transfer back (more
    /// than the transferred amount counts as the whole of it).
    Refund(u128),
    /// The hook errored or never answered: the whole transfer is rolled back.
    NoResponse,
}

/// How much of the transfer the hook's answer asks to give back.
pub open spec fn requested_refund(outcome: HookOutcome, amount: u128) -> u128 {
    match outcome {
        HookOutcome::Refund(x) => if x <= amount {
            x
        } else {
            amount
        },
        HookOutcome::NoResponse => amount,
    }
}

/// Everything `resolve_transfer` does. The refund is capped by what the
/// receiver still holds; it moves back to the sender, or is burned when the
/// sender's slot is gone by settlement time — either way no value appears
/// from nowhere.
pub open spec fn resolve_post(
    pre: Ledger,
    post: Ledger,
    snd: Seq<char>,
    rcv: Seq<char>,
    amount: u128,
    outcome: HookOutcome,
    refunded: u128,
) -> bool {
    let req = requested_refund(outcome, amount);
    let actual: u128 = if req <= pre.balance(rcv) {
        req
    } else {
        pre.balance(rcv)
    };
    &&& refunded == actual
    &&& post.balance(rcv) == pre.balance(rcv) - actual
    &&& (pre.registered(snd) ==> post.balance(snd) == pre.balance(snd) + actual && post.supply()
        == pre.supply())
    &&& (!pre.registered(snd) ==> post.balance(snd) == pre.balance(snd) && post.supply()
        == pre.supply() - actual)
    &&& (forall|b: Seq<char>| b != snd && b != rcv ==> post.balance(b) == pre.balance(b))
    &&& (forall|b: Seq<char>| post.registered(b) == pre.registered(b))
    &&& post.fee() == pre.fee()
    &&& post.minted() == pre.minted()
}

impl Ledger {
    /// First phase: commit the transfer and hand back what the caller must
    /// remember to settle it. The caller delivers the notification payload to
    /// the receiver's hook and then calls `resolve_transfer` with the
    /// outcome; the payload itself never touches the ledger.
    pub fn transfer_and_notify_start(
        &mut self,
        sender: &String,
        receiver: &String,
        amount: u128,
    ) -> (r: Result<PendingTransfer, LedgerError>)
        requires
            old(self).wf(),
        ensures
            final(self).wf(),
            (r is Ok) == transfer_ok(*old(self), sender@, receiver@, amount),
            (r matches Ok(p) ==> {
                &&& transfer_post(
                    *old(self),
                    *final(self),
                    sender@,
                    receiver@,
                    amount,
                    Ok::<(), LedgerError>(()),
                )
                &&& p.sender@ == sender@
                &&& p.receiver@ == receiver@
                &&& p.amount == amount
            }),
            (r matches Err(e) ==> e == transfer_err(*old(self), sender@, receiver@, amount)
                && *final(self) == *old(self)),
    {
        match self.transfer(sender, receiver, amount) {
            Ok(()) => Ok(
                PendingTransfer {
                    sender: sender.clone(),
                    receiver: receiver.clone(),
                    amount,
                },
            ),
            Err(e) => Err(e),
        }
    }

    /// Second phase: settle a committed transfer against the hook's outcome.
    /// The refund asked for — everything, when the hook never answered — is
    /// capped by what the receiver still holds and moves back to the sender;
    /// with the sender's slot gone by now, it is burned instead. Returns the
    /// amount actually given back.
    pub fn resolve_transfer(&mut self, pending: &PendingTransfer, outcome: HookOutcome) -> (refunded:
        u128)
        requires
            old(self).wf(),
            pending.sender@ != pending.receiver@,
        ensures
            final(self).wf(),
            resolve_post(
                *old(self),
                *final(self),
                pending.sender@,
                pending.receiver@,
                pending.amount,
                outcome,
                refunded,
            ),
    {
        let requested: u128 = match outcome {
            HookOutcome::Refund(x) => if x <= pending.amount {
                x
            } else {
                pending.amount
            },
            HookOutcome::NoResponse => pending.amount,
        };
        let receiver_bal = self.balance_of(&pending.receiver);
        let refund: u128 = if requested <= receiver_bal {
            requested
        } else {
            receiver_bal
        };
        if refund > 0 {
            let ghost mid = *self;
            let w = self.internal_withdraw(&pending.receiver, refund);
            proof {
                assert(withdraw_post(mid, *self, pending.receiver@, refund, w));
                assert(w == Ok::<(), LedgerError>(()));
            }
            if self.is_registered(&pending.sender) {
                let ghost mid2 = *self;
                let d = self.internal_deposit(&pending.sender, refund);
                proof {
                    assert(deposit_post(mid2, *self, pending.sender@, refund, d));
                    assert(d == Ok::<(), LedgerError>(()));
                }
            }
        }
        refund
    }
}

} // verus!
