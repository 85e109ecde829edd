//! The ledger itself: a balance store keyed by account identifier, with
//! payment-gated registration, deposit/withdraw primitives, conserving
//! transfers, one-time genesis minting, and burning.
//!
//! Every operation's contract is a post-state predicate that pins the result
//! and the whole new state; every operation preserves `wf`, which states the
//! conservation invariant: the stored total supply equals the sum of all
//! registered balances.

use vstd::prelude::*;

use crate::account::{
    AccountEntry, lemma_balance_le_sum, lemma_entry_resolves, lemma_push_new_id,
    lemma_sum_push, lemma_sum_swap_remove, lemma_sum_update, lemma_swap_remove_id,
    lemma_update_same_id, spec_balance_of, spec_registered, sum_balances, unique_ids,
};
use crate::error::LedgerError;

verus! {

/// What a successful unregistration freed and destroyed. The value-destroying
/// forced path is distinguished from the safe path by its own variant.
#[derive(Clone, Copy, Debug, PartialEq, Eq, Structural)]
pub enum UnregisterReceipt {
    /// The account held nothing; its storage fee goes back to the caller.
    Safe { fee_refunded: u128 },
    /// The account still held value and was closed by force: the balance was
    /// burned (total supply fell by it) before the slot was freed.
    Burned { fee_refunded: u128, burned: u128 },
}

/// A fungible-token ledger for one asset: which accounts hold a balance
/// slot, what each holds, the stored total supply, the fixed storage fee a
/// slot costs, and whether the one-time genesis mint has happened.
pub struct Ledger {
    entries: Vec<AccountEntry>,
    total: u128,
    fee: u128,
    minted: bool,
}

impl Ledger {
    /// The balance slots, one per registered account.
    pub closed spec fn accounts(self) -> Seq<AccountEntry> {
        self.entries@
    }

    /// The stored total supply.
    pub closed spec fn supply(self) -> u128 {
        self.total
    }

    /// The fixed storage fee one balance slot costs.
    pub closed spec fn fee(self) -> u128 {
        self.fee
    }

    /// Whether the one-time genesis mint has happened.
    pub closed spec fn minted(self) -> bool {
        self.minted
    }

    /// Whether `id` holds a balance slot.
    pub open spec fn registered(self, id: Seq<char>) -> bool {
        spec_registered(self.accounts(), id)
    }

    /// The balance held by `id`; zero for an account without a slot.
    pub open spec fn balance(self, id: Seq<char>) -> u128 {
        spec_balance_of(self.accounts(), id)
    }

    /// Well-formedness: each account holds at most one slot, and the stored
    /// total supply is exactly the sum of all balances.
    pub open spec fn wf(self) -> bool {
        &&& unique_ids(self.accounts())
        &&& self.supply() as int == sum_balances(self.accounts())
    }

    /// A fresh ledger: no accounts, no supply, nothing minted yet.
    pub fn new(storage_fee: u128) -> (l: Ledger)
        ensures
            l.wf(),
            !l.minted(),
            l.supply() == 0,
            l.fee() == storage_fee,
            l.accounts().len() == 0,
            forall|b: Seq<char>| !l.registered(b),
    {
        Ledger { entries: Vec::new(), total: 0, fee: storage_fee, minted: false }
    }

    /// The position of the slot naming `id`, if the account holds one.
    fn find_index(&self, id: &String) -> (r: Option<usize>)
        ensures
            match r {
                Some(i) => i < self.accounts().len() && self.accounts()[i as int].id@ == id@,
                None => !self.registered(id@),
            },
    {
        let mut i: usize = 0;
        while i < self.entries.len()
            invariant
                i <= self.entries.len(),
                forall|k: int| 0 <= k < i ==> self.entries@[k].id@ != id@,
            decreases self.entries.len() - i,
        {
            if self.entries[i].id == *id {
                return Some(i);
            }
            i += 1;
        }
        None
    }

    /// Pure lookup: whether the account holds a balance slot.
    pub fn is_registered(&self, account: &String) -> (r: bool)
        ensures
            r == self.registered(account@),
    {
        self.find_index(account).is_some()
    }

    /// The account's balance; zero for an unregistered account, never an
    /// error.
    pub fn balance_of(&self, account: &String) -> (r: u128)
        requires
            self.wf(),
        ensures
            r == self.balance(account@),
    {
        match self.find_index(account) {
            Some(i) => {
                proof {
                    lemma_entry_resolves(self.accounts(), i as int);
                }
                self.entries[i].balance
            },
            None => 0,
        }
    }

    /// The total supply of the asset.
    pub fn total_supply(&self) -> (r: u128)
        ensures
            r == self.supply(),
    {
        self.total
    }

    /// The fixed storage fee one balance slot costs.
    pub fn storage_fee(&self) -> (r: u128)
        ensures
            r == self.fee(),
    {
        self.fee
    }

    /// Whether the one-time genesis mint has happened.
    pub fn is_initialized(&self) -> (r: bool)
        ensures
            r == self.minted(),
    {
        self.minted
    }
}

/// A deposit succeeds iff the account is registered and the new total supply
/// still fits in a `u128`.
pub open spec fn deposit_ok(pre: Ledger, a: Seq<char>, amount: u128) -> bool {
    pre.registered(a) && pre.supply() + amount <= u128::MAX
}

/// The error a failing deposit reports: a missing registration is detected
/// before overflow.
pub open spec fn deposit_err(pre: Ledger, a: Seq<char>) -> LedgerError {
    if !pre.registered(a) {
        LedgerError::AccountNotRegistered
    } else {
        LedgerError::BalanceOverflow
    }
}

/// Everything `internal_deposit` does: the exact result, full rollback on
/// failure, and on success the one changed balance, the raised supply, and
/// nothing else.
pub open spec fn deposit_post(
    pre: Ledger,
    post: Ledger,
    a: Seq<char>,
    amount: u128,
    r: Result<(), LedgerError>,
) -> bool {
    &&& (if deposit_ok(pre, a, amount) {
        r == Ok::<(), LedgerError>(())
    } else {
        r == Err::<(), LedgerError>(deposit_err(pre, a)) && post == pre
    })
    &&& (deposit_ok(pre, a, amount) ==> {
        &&& post.balance(a) == pre.balance(a) + amount
        &&& (forall|b: Seq<char>| b != a ==> post.balance(b) == pre.balance(b))
        &&& (forall|b: Seq<char>| post.registered(b) == pre.registered(b))
        &&& post.supply() == pre.supply() + amount
        &&& post.fee() == pre.fee()
        &&& post.minted() == pre.minted()
    })
}

/// A withdrawal succeeds iff the account is registered and holds at least the
/// amount.
pub open spec fn withdraw_ok(pre: Ledger, a: Seq<char>, amount: u128) -> bool {
    pre.registered(a) && pre.balance(a) >= amount
}

/// The error a failing withdrawal reports.
pub open spec fn withdraw_err(pre: Ledger, a: Seq<char>) -> LedgerError {
    if !pre.registered(a) {
        LedgerError::AccountNotRegistered
    } else {
        LedgerError::InsufficientBalance
    }
}

/// Everything `internal_withdraw` does; a burn is this with no compensating
/// deposit, so the supply falls by the amount.
pub open spec fn withdraw_post(
    pre: Ledger,
    post: Ledger,
    a: Seq<char>,
    amount: u128,
    r: Result<(), LedgerError>,
) -> bool {
    &&& (if withdraw_ok(pre, a, amount) {
        r == Ok::<(), LedgerError>(())
    } else {
        r == Err::<(), LedgerError>(withdraw_err(pre, a)) && post == pre
    })
    &&& (withdraw_ok(pre, a, amount) ==> {
        &&& post.balance(a) == pre.balance(a) - amount
        &&& (forall|b: Seq<char>| b != a ==> post.balance(b) == pre.balance(b))
        &&& (forall|b: Seq<char>| post.registered(b) == pre.registered(b))
        &&& post.supply() == pre.supply() - amount
        &&& post.fee() == pre.fee()
        &&& post.minted() == pre.minted()
    })
}

impl Ledger {
    /// Add `amount` to a registered account's balance and to the total
    /// supply, atomically; on any failure the ledger is exactly as before.
    pub fn internal_deposit(&mut self, account: &String, amount: u128) -> (r: Result<
        (),
        LedgerError,
    >)
        requires
            old(self).wf(),
        ensures
            final(self).wf(),
            deposit_post(*old(self), *final(self), account@, amount, r),
    {
        match self.find_index(account) {
            None => Err(LedgerError::AccountNotRegistered),
            Some(i) => {
                proof {
                    lemma_entry_resolves(self.accounts(), i as int);
                }
                if amount > u128::MAX - self.total {
                    Err(LedgerError::BalanceOverflow)
                } else {
                    proof {
                        lemma_balance_le_sum(self.accounts(), i as int);
                    }
                    let ghost s0 = self.entries@;
                    let bal = self.entries[i].balance;
                    self.entries[i].balance = bal + amount;
                    self.total = self.total + amount;
                    proof {
                        lemma_sum_update(s0, i as int, self.entries@[i as int]);
                        lemma_update_same_id(s0, i as int, self.entries@[i as int]);
                    }
                    Ok(())
                }
            },
        }
    }

    /// Subtract `amount` from a registered account's balance and from the
    /// total supply, atomically; on any failure the ledger is exactly as
    /// before.
    pub fn internal_withdraw(&mut self, account: &String, amount: u128) -> (r: Result<
        (),
        LedgerError,
    >)
        requires
            old(self).wf(),
        ensures
            final(self).wf(),
            withdraw_post(*old(self), *final(self), account@, amount, r),
    {
        match self.find_index(account) {
            None => Err(LedgerError::AccountNotRegistered),
            Some(i) => {
                proof {
                    lemma_entry_resolves(self.accounts(), i as int);
                }
                let bal = self.entries[i].balance;
                if bal < amount {
                    Err(LedgerError::InsufficientBalance)
                } else {
                    proof {
                        lemma_balance_le_sum(self.accounts(), i as int);
                    }
                    let ghost s0 = self.entries@;
                    self.entries[i].balance = bal - amount;
                    self.total = self.total - amount;
                    proof {
                        lemma_sum_update(s0, i as int, self.entries@[i as int]);
                        lemma_update_same_id(s0, i as int, self.entries@[i as int]);
                    }
                    Ok(())
                }
            },
        }
    }
}

/// Everything `register` does: an already-registered account keeps its state
/// and the whole payment comes back; a payment short of the fee changes
/// nothing; otherwise a zero-balance slot is created and the excess over the
/// fee comes back.
pub open spec fn register_post(
    pre: Ledger,
    post: Ledger,
    a: Seq<char>,
    attached: u128,
    r: Result<u128, LedgerError>,
) -> bool {
    &&& (if pre.registered(a) {
        r == Ok::<u128, LedgerError>(attached) && post == pre
    } else if attached < pre.fee() {
        r == Err::<u128, LedgerError>(LedgerError::InsufficientStorageDeposit) && post == pre
    } else {
        r == Ok::<u128, LedgerError>((attached - pre.fee()) as u128)
    })
    &&& ((!pre.registered(a) && attached >= pre.fee()) ==> {
        &&& (forall|b: Seq<char>| post.registered(b) == (pre.registered(b) || b == a))
        &&& post.balance(a) == 0
        &&& (forall|b: Seq<char>| b != a ==> post.balance(b) == pre.balance(b))
        &&& post.supply() == pre.supply()
        &&& post.fee() == pre.fee()
        &&& post.minted() == pre.minted()
    })
}

/// Everything `unregister` does: an unknown account or a non-forced call on a
/// nonzero balance changes nothing; otherwise the slot is freed, the fee
/// comes back, and a forced nonzero balance is burned and reported as such.
pub open spec fn unregister_post(
    pre: Ledger,
    post: Ledger,
    a: Seq<char>,
    force: bool,
    r: Result<UnregisterReceipt, LedgerError>,
) -> bool {
    &&& (if !pre.registered(a) {
        r == Err::<UnregisterReceipt, LedgerError>(LedgerError::AccountNotRegistered) && post
            == pre
    } else if pre.balance(a) > 0 && !force {
        r == Err::<UnregisterReceipt, LedgerError>(LedgerError::NonZeroBalance) && post == pre
    } else {
        r == Ok::<UnregisterReceipt, LedgerError>(
            if pre.balance(a) == 0 {
                UnregisterReceipt::Safe { fee_refunded: pre.fee() }
            } else {
                UnregisterReceipt::Burned { fee_refunded: pre.fee(), burned: pre.balance(a) }
            },
        )
    })
    &&& ((pre.registered(a) && (pre.balance(a) == 0 || force)) ==> {
        &&& (forall|b: Seq<char>| post.registered(b) == (pre.registered(b) && b != a))
        &&& post.balance(a) == 0
        &&& (forall|b: Seq<char>| b != a ==> post.balance(b) == pre.balance(b))
        &&& post.supply() == pre.supply() - pre.balance(a)
        &&& post.fee() == pre.fee()
        &&& post.minted() == pre.minted()
    })
}

impl Ledger {
    /// Pay the storage fee and open a zero-balance slot for `account`.
    /// Registering an already-registered account is a no-op that refunds the
    /// whole attached payment; a payment short of the fee is refused whole.
    /// The result carries the refund owed to the caller.
    pub fn register(&mut self, account: &String, attached_deposit: u128) -> (r: Result<
        u128,
        LedgerError,
    >)
        requires
            old(self).wf(),
        ensures
            final(self).wf(),
            register_post(*old(self), *final(self), account@, attached_deposit, r),
    {
        match self.find_index(account) {
            Some(i) => {
                proof {
                    lemma_entry_resolves(self.accounts(), i as int);
                }
                Ok(attached_deposit)
            },
            None => {
                if attached_deposit < self.fee {
                    Err(LedgerError::InsufficientStorageDeposit)
                } else {
                    let ghost s0 = self.entries@;
                    let entry = AccountEntry { id: account.clone(), balance: 0 };
                    self.entries.push(entry);
                    proof {
                        lemma_sum_push(s0, self.entries@.last());
                        lemma_push_new_id(s0, self.entries@.last());
                    }
                    Ok(attached_deposit - self.fee)
                }
            },
        }
    }

    /// Free `account`'s slot and refund its storage fee. An account still
    /// holding value is refused unless `force` is set, in which case its
    /// balance is burned first and the receipt says so.
    pub fn unregister(&mut self, account: &String, force: bool) -> (r: Result<
        UnregisterReceipt,
        LedgerError,
    >)
        requires
            old(self).wf(),
        ensures
            final(self).wf(),
            unregister_post(*old(self), *final(self), account@, force, r),
    {
        match self.find_index(account) {
            None => Err(LedgerError::AccountNotRegistered),
            Some(i) => {
                proof {
                    lemma_entry_resolves(self.accounts(), i as int);
                }
                let bal = self.entries[i].balance;
                if bal > 0 && !force {
                    Err(LedgerError::NonZeroBalance)
                } else {
                    proof {
                        lemma_balance_le_sum(self.accounts(), i as int);
                    }
                    let ghost s0 = self.entries@;
                    self.entries.swap_remove(i);
                    self.total = self.total - bal;
                    proof {
                        lemma_sum_swap_remove(s0, i as int);
                        lemma_swap_remove_id(s0, i as int);
                    }
                    if bal == 0 {
                        Ok(UnregisterReceipt::Safe { fee_refunded: self.fee })
                    } else {
                        Ok(UnregisterReceipt::Burned { fee_refunded: self.fee, burned: bal })
                    }
                }
            },
        }
    }
}

/// A transfer succeeds iff the two accounts differ, the amount is positive,
/// the sender holds at least the amount, the receiver is registered, and the
/// receiver's balance stays representable.
pub open spec fn transfer_ok(pre: Ledger, s: Seq<char>, r: Seq<char>, amount: u128) -> bool {
    &&& s != r
    &&& amount > 0
    &&& pre.registered(s)
    &&& pre.balance(s) >= amount
    &&& pre.registered(r)
    &&& pre.balance(r) + amount <= u128::MAX
}

/// The error a failing transfer reports, in the order the preconditions are
/// checked.
pub open spec fn transfer_err(pre: Ledger, s: Seq<char>, r: Seq<char>, amount: u128) -> LedgerError {
    if s == r {
        LedgerError::SelfTransfer
    } else if amount == 0 {
        LedgerError::ZeroAmount
    } else if !pre.registered(s) {
        LedgerError::AccountNotRegistered
    } else if pre.balance(s) < amount {
        LedgerError::InsufficientBalance
    } else if !pre.registered(r) {
        LedgerError::AccountNotRegistered
    } else {
        LedgerError::BalanceOverflow
    }
}

/// Everything `transfer` does: the exact result, full rollback on failure,
/// and on success the two changed balances, with the total supply and every
/// third balance untouched.
pub open spec fn transfer_post(
    pre: Ledger,
    post: Ledger,
    s: Seq<char>,
    r: Seq<char>,
    amount: u128,
    res: Result<(), LedgerError>,
) -> bool {
    &&& (if transfer_ok(pre, s, r, amount) {
        res == Ok::<(), LedgerError>(())
    } else {
        res == Err::<(), LedgerError>(transfer_err(pre, s, r, amount)) && post == pre
    })
    &&& (transfer_ok(pre, s, r, amount) ==> {
        &&& post.balance(s) == pre.balance(s) - amount
        &&& post.balance(r) == pre.balance(r) + amount
        &&& (forall|b: Seq<char>| b != s && b != r ==> post.balance(b) == pre.balance(b))
        &&& (forall|b: Seq<char>| post.registered(b) == pre.registered(b))
        &&& post.supply() == pre.supply()
        &&& post.fee() == pre.fee()
        &&& post.minted() == pre.minted()
    })
}

impl Ledger {
    /// Move `amount` from `sender` to `receiver` as one indivisible step:
    /// both sides are validated before either balance is touched, so a
    /// refused transfer leaves the ledger exactly as it was. Transfers never
    /// change the total supply.
    pub fn transfer(&mut self, sender: &String, receiver: &String, amount: u128) -> (res: Result<
        (),
        LedgerError,
    >)
        requires
            old(self).wf(),
        ensures
            final(self).wf(),
            transfer_post(*old(self), *final(self), sender@, receiver@, amount, res),
    {
        if *sender == *receiver {
            return Err(LedgerError::SelfTransfer);
        }
        if amount == 0 {
            return Err(LedgerError::ZeroAmount);
        }
        let si = match self.find_index(sender) {
            None => {
                return Err(LedgerError::AccountNotRegistered);
            },
            Some(i) => i,
        };
        proof {
            lemma_entry_resolves(self.accounts(), si as int);
        }
        let sender_bal = self.entries[si].balance;
        if sender_bal < amount {
            return Err(LedgerError::InsufficientBalance);
        }
        let ri = match self.find_index(receiver) {
            None => {
                return Err(LedgerError::AccountNotRegistered);
            },
            Some(i) => i,
        };
        proof {
            lemma_entry_resolves(self.accounts(), ri as int);
        }
        let receiver_bal = self.entries[ri].balance;
        if amount > u128::MAX - receiver_bal {
            return Err(LedgerError::BalanceOverflow);
        }
        // Both sides validated; commit both.
        let ghost s0 = self.entries@;
        assert(si != ri);
        self.entries[si].balance = sender_bal - amount;
        proof {
            lemma_sum_update(s0, si as int, self.entries@[si as int]);
            lemma_update_same_id(s0, si as int, self.entries@[si as int]);
        }
        let ghost s1 = self.entries@;
        self.entries[ri].balance = receiver_bal + amount;
        proof {
            lemma_sum_update(s1, ri as int, self.entries@[ri as int]);
            lemma_update_same_id(s1, ri as int, self.entries@[ri as int]);
            lemma_entry_resolves(s1, ri as int);
        }
        Ok(())
    }
}

/// Genesis minting succeeds iff nothing was minted before and the new supply
/// fits in a `u128`.
pub open spec fn mint_ok(pre: Ledger, amount: u128) -> bool {
    !pre.minted() && pre.supply() + amount <= u128::MAX
}

/// The error a failing genesis mint reports.
pub open spec fn mint_err(pre: Ledger) -> LedgerError {
    if pre.minted() {
        LedgerError::AlreadyInitialized
    } else {
        LedgerError::BalanceOverflow
    }
}

/// Everything `mint_genesis` does: the owner is registered if need be and
/// credited with the whole minted amount, once and never again.
pub open spec fn mint_post(
    pre: Ledger,
    post: Ledger,
    owner: Seq<char>,
    amount: u128,
    r: Result<(), LedgerError>,
) -> bool {
    &&& (if mint_ok(pre, amount) {
        r == Ok::<(), LedgerError>(())
    } else {
        r == Err::<(), LedgerError>(mint_err(pre)) && post == pre
    })
    &&& (mint_ok(pre, amount) ==> {
        &&& post.minted()
        &&& (forall|b: Seq<char>| post.registered(b) == (pre.registered(b) || b == owner))
        &&& post.balance(owner) == pre.balance(owner) + amount
        &&& (forall|b: Seq<char>| b != owner ==> post.balance(b) == pre.balance(b))
        &&& post.supply() == pre.supply() + amount
        &&& post.fee() == pre.fee()
    })
}

impl Ledger {
    /// Issue the initial supply to `owner`, registering the owner if need be
    /// (construction pays the slot, no fee is charged). Succeeds at most once
    /// per ledger: a second call is refused with `AlreadyInitialized`.
    pub fn mint_genesis(&mut self, owner: &String, amount: u128) -> (r: Result<(), LedgerError>)
        requires
            old(self).wf(),
        ensures
            final(self).wf(),
            mint_post(*old(self), *final(self), owner@, amount, r),
    {
        if self.minted {
            return Err(LedgerError::AlreadyInitialized);
        }
        if amount > u128::MAX - self.total {
            return Err(LedgerError::BalanceOverflow);
        }
        let i = match self.find_index(owner) {
            Some(i) => i,
            None => {
                let ghost s0 = self.entries@;
                let entry = AccountEntry { id: owner.clone(), balance: 0 };
                self.entries.push(entry);
                proof {
                    lemma_sum_push(s0, self.entries@.last());
                    lemma_push_new_id(s0, self.entries@.last());
                }
                self.entries.len() - 1
            },
        };
        proof {
            lemma_entry_resolves(self.entries@, i as int);
            lemma_balance_le_sum(self.entries@, i as int);
        }
        let ghost s1 = self.entries@;
        let bal = self.entries[i].balance;
        self.entries[i].balance = bal + amount;
        self.total = self.total + amount;
        self.minted = true;
        proof {
            lemma_sum_update(s1, i as int, self.entries@[i as int]);
            lemma_update_same_id(s1, i as int, self.entries@[i as int]);
        }
        Ok(())
    }

    /// Destroy `amount` of `account`'s balance: a withdrawal with no
    /// compensating deposit, so the total supply falls by `amount` for the
    /// rest of the ledger's life. The caller may report the burned amount
    /// and account to an observer.
    pub fn burn(&mut self, account: &String, amount: u128) -> (r: Result<(), LedgerError>)
        requires
            old(self).wf(),
        ensures
            final(self).wf(),
            withdraw_post(*old(self), *final(self), account@, amount, r),
    {
        self.internal_withdraw(account, amount)
    }
}

} // verus!
