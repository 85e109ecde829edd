//! The storage slots of the ledger: one entry per registered account, with
//! the spec-level functions that say which account an entry names, what it
//! holds, and how much value a whole slot sequence carries.

use vstd::prelude::*;

verus! {

/// One balance slot: a registered account identifier and the value it holds.
pub struct AccountEntry {
    pub id: String,
    pub balance: u128,
}

/// No two slots name the same account.
pub open spec fn unique_ids(s: Seq<AccountEntry>) -> bool {
    forall|i: int, j: int|
        0 <= i < j < s.len() ==> #[trigger] s[i].id@ != #[trigger] s[j].id@
}

/// Some slot names the account `id`.
pub open spec fn spec_registered(s: Seq<AccountEntry>, id: Seq<char>) -> bool {
    exists|i: int| 0 <= i < s.len() && #[trigger] s[i].id@ == id
}

/// The slot that names `id` (meaningful only when one exists).
pub open spec fn index_of(s: Seq<AccountEntry>, id: Seq<char>) -> int {
    choose|i: int| 0 <= i < s.len() && #[trigger] s[i].id@ == id
}

/// The balance held by `id`: the value of its slot, or zero when the account
/// holds no slot.
pub open spec fn spec_balance_of(s: Seq<AccountEntry>, id: Seq<char>) -> u128 {
    if spec_registered(s, id) {
        s[index_of(s, id)].balance
    } else {
        0
    }
}

/// The value carried by all slots together.
pub open spec fn sum_balances(s: Seq<AccountEntry>) -> int
    decreases s.len(),
{
    if s.len() == 0 {
        0
    } else {
        sum_balances(s.drop_last()) + s.last().balance
    }
}

/// A sum of unsigned balances is never negative.
pub proof fn lemma_sum_nonneg(s: Seq<AccountEntry>)
    ensures
        sum_balances(s) >= 0,
    decreases s.len(),
{
    if s.len() > 0 {
        lemma_sum_nonneg(s.drop_last());
    }
}

/// Each single balance is at most the sum of all balances.
pub proof fn lemma_balance_le_sum(s: Seq<AccountEntry>, j: int)
    requires
        0 <= j < s.len(),
    ensures
        s[j].balance <= sum_balances(s),
    decreases s.len(),
{
    if j == s.len() - 1 {
        lemma_sum_nonneg(s.drop_last());
    } else {
        lemma_balance_le_sum(s.drop_last(), j);
    }
}

/// Two different slots together hold at most the sum of all balances.
pub proof fn lemma_two_balances_le_sum(s: Seq<AccountEntry>, i: int, j: int)
    requires
        0 <= i < s.len(),
        0 <= j < s.len(),
        i != j,
    ensures
        s[i].balance + s[j].balance <= sum_balances(s),
    decreases s.len(),
{
    if i == s.len() - 1 {
        lemma_balance_le_sum(s.drop_last(), j);
    } else if j == s.len() - 1 {
        lemma_balance_le_sum(s.drop_last(), i);
    } else {
        lemma_two_balances_le_sum(s.drop_last(), i, j);
        lemma_sum_nonneg(s.drop_last());
    }
}

/// Replacing one slot changes the sum by the difference of the balances.
pub proof fn lemma_sum_update(s: Seq<AccountEntry>, j: int, e: AccountEntry)
    requires
        0 <= j < s.len(),
    ensures
        sum_balances(s.update(j, e)) == sum_balances(s) - s[j].balance + e.balance,
    decreases s.len(),
{
    let t = s.update(j, e);
    if j == s.len() - 1 {
        assert(t.drop_last() =~= s.drop_last());
    } else {
        assert(t.drop_last() =~= s.drop_last().update(j, e));
        lemma_sum_update(s.drop_last(), j, e);
    }
}

/// Appending a slot adds its balance to the sum.
pub proof fn lemma_sum_push(s: Seq<AccountEntry>, e: AccountEntry)
    ensures
        sum_balances(s.push(e)) == sum_balances(s) + e.balance,
{
    assert(s.push(e).drop_last() =~= s);
}

/// Removing slot `i` by swapping the last slot into its place subtracts
/// exactly that slot's balance from the sum.
pub proof fn lemma_sum_swap_remove(s: Seq<AccountEntry>, i: int)
    requires
        0 <= i < s.len(),
    ensures
        sum_balances(s.update(i, s.last()).drop_last()) == sum_balances(s) - s[i].balance,
{
    lemma_sum_update(s, i, s.last());
    let u = s.update(i, s.last());
    assert(u.last() == s.last());
}

/// With unique ids, the slot at a known position is the one its account
/// resolves to.
pub proof fn lemma_entry_resolves(s: Seq<AccountEntry>, j: int)
    requires
        unique_ids(s),
        0 <= j < s.len(),
    ensures
        spec_registered(s, s[j].id@),
        index_of(s, s[j].id@) == j,
        spec_balance_of(s, s[j].id@) == s[j].balance,
{
    assert(0 <= j < s.len() && s[j].id@ == s[j].id@);
    let k = index_of(s, s[j].id@);
    assert(0 <= k < s.len() && s[k].id@ == s[j].id@);
    if k != j {
        assert(s[k].id@ != s[j].id@);
    }
}

/// Replacing slot `j` by one naming the same account keeps every account's
/// registration and every other account's balance; the named account now
/// holds the new slot's balance.
pub proof fn lemma_update_same_id(s: Seq<AccountEntry>, j: int, e: AccountEntry)
    requires
        unique_ids(s),
        0 <= j < s.len(),
        e.id@ == s[j].id@,
    ensures
        unique_ids(s.update(j, e)),
        forall|b: Seq<char>| spec_registered(s.update(j, e), b) == spec_registered(s, b),
        spec_balance_of(s.update(j, e), s[j].id@) == e.balance,
        forall|b: Seq<char>|
            b != s[j].id@ ==> spec_balance_of(s.update(j, e), b) == spec_balance_of(s, b),
{
    let t = s.update(j, e);
    assert forall|k: int| 0 <= k < s.len() implies #[trigger] t[k].id@ == s[k].id@ by {
        if k == j {
        }
    }
    assert forall|a: int, c: int| 0 <= a < c < t.len() implies #[trigger] t[a].id@
        != #[trigger] t[c].id@ by {
        assert(t[a].id@ == s[a].id@);
        assert(t[c].id@ == s[c].id@);
    }
    assert forall|b: Seq<char>| #[trigger] spec_registered(t, b) == spec_registered(s, b) by {
        if spec_registered(t, b) {
            let i = choose|i: int| 0 <= i < t.len() && #[trigger] t[i].id@ == b;
            assert(s[i].id@ == b);
            assert(spec_registered(s, b));
        }
        if spec_registered(s, b) {
            let i = choose|i: int| 0 <= i < s.len() && #[trigger] s[i].id@ == b;
            assert(t[i].id@ == b);
            assert(spec_registered(t, b));
        }
    }
    lemma_entry_resolves(t, j);
    assert forall|b: Seq<char>| b != s[j].id@ implies #[trigger] spec_balance_of(t, b)
        == spec_balance_of(s, b) by {
        if spec_registered(s, b) {
            let i = index_of(s, b);
            assert(0 <= i < s.len() && s[i].id@ == b);
            assert(i != j);
            lemma_entry_resolves(s, i);
            lemma_entry_resolves(t, i);
            assert(t[i].id@ == b);
        }
    }
}

/// Appending a slot for a fresh account registers exactly that account with
/// the slot's balance and leaves every other account as it was.
pub proof fn lemma_push_new_id(s: Seq<AccountEntry>, e: AccountEntry)
    requires
        unique_ids(s),
        !spec_registered(s, e.id@),
    ensures
        unique_ids(s.push(e)),
        forall|b: Seq<char>|
            spec_registered(s.push(e), b) == (spec_registered(s, b) || b == e.id@),
        spec_balance_of(s.push(e), e.id@) == e.balance,
        forall|b: Seq<char>|
            b != e.id@ ==> spec_balance_of(s.push(e), b) == spec_balance_of(s, b),
{
    let t = s.push(e);
    assert forall|a: int, c: int| 0 <= a < c < t.len() implies #[trigger] t[a].id@
        != #[trigger] t[c].id@ by {
        if c == s.len() {
            assert(t[a].id@ == s[a].id@);
            if t[a].id@ == e.id@ {
                assert(spec_registered(s, e.id@));
            }
        } else {
            assert(t[a].id@ == s[a].id@);
            assert(t[c].id@ == s[c].id@);
        }
    }
    assert forall|b: Seq<char>| #[trigger] spec_registered(t, b) == (spec_registered(s, b) || b
        == e.id@) by {
        if spec_registered(t, b) {
            let i = choose|i: int| 0 <= i < t.len() && #[trigger] t[i].id@ == b;
            if i < s.len() {
                assert(s[i].id@ == b);
                assert(spec_registered(s, b));
            } else {
                assert(b == e.id@);
            }
        }
        if spec_registered(s, b) {
            let i = choose|i: int| 0 <= i < s.len() && #[trigger] s[i].id@ == b;
            assert(t[i].id@ == b);
            assert(spec_registered(t, b));
        }
        if b == e.id@ {
            assert(t[s.len() as int].id@ == b);
            assert(spec_registered(t, b));
        }
    }
    lemma_entry_resolves(t, s.len() as int);
    assert forall|b: Seq<char>| b != e.id@ implies #[trigger] spec_balance_of(t, b)
        == spec_balance_of(s, b) by {
        if spec_registered(s, b) {
            let i = index_of(s, b);
            assert(0 <= i < s.len() && s[i].id@ == b);
            lemma_entry_resolves(s, i);
            lemma_entry_resolves(t, i);
            assert(t[i].id@ == b);
        }
    }
}

/// Removing the slot of one account (by swapping the last slot into its
/// place) unregisters exactly that account and leaves every other account's
/// balance as it was.
pub proof fn lemma_swap_remove_id(s: Seq<AccountEntry>, i: int)
    requires
        unique_ids(s),
        0 <= i < s.len(),
    ensures
        unique_ids(s.update(i, s.last()).drop_last()),
        forall|b: Seq<char>|
            spec_registered(s.update(i, s.last()).drop_last(), b) == (spec_registered(s, b) && b
                != s[i].id@),
        forall|b: Seq<char>|
            b != s[i].id@ ==> spec_balance_of(s.update(i, s.last()).drop_last(), b)
                == spec_balance_of(s, b),
{
    let t = s.update(i, s.last()).drop_last();
    let n = s.len() as int;
    assert forall|k: int| 0 <= k < n - 1 implies #[trigger] t[k] == (if k == i {
        s[n - 1]
    } else {
        s[k]
    }) by {
    }
    assert forall|a: int, c: int| 0 <= a < c < t.len() implies #[trigger] t[a].id@
        != #[trigger] t[c].id@ by {
        let sa = if a == i { n - 1 } else { a };
        let sc = if c == i { n - 1 } else { c };
        assert(t[a].id@ == s[sa].id@);
        assert(t[c].id@ == s[sc].id@);
        assert(sa != sc);
        if sa < sc {
            assert(s[sa].id@ != s[sc].id@);
        } else {
            assert(s[sc].id@ != s[sa].id@);
        }
    }
    assert forall|b: Seq<char>| #[trigger] spec_registered(t, b) == (spec_registered(s, b) && b
        != s[i].id@) by {
        if spec_registered(t, b) {
            let k = choose|k: int| 0 <= k < t.len() && #[trigger] t[k].id@ == b;
            let sk = if k == i { n - 1 } else { k };
            assert(s[sk].id@ == b);
            assert(spec_registered(s, b));
            assert(sk != i || i == n - 1 && k < n - 1);
            if sk != i {
                if sk < i {
                    assert(s[sk].id@ != s[i].id@);
                } else {
                    assert(s[i].id@ != s[sk].id@);
                }
            }
            assert(b != s[i].id@);
        }
        if spec_registered(s, b) && b != s[i].id@ {
            let k = choose|k: int| 0 <= k < s.len() && #[trigger] s[k].id@ == b;
            assert(k != i);
            if k == n - 1 {
                assert(i < n - 1);
                assert(t[i].id@ == b);
            } else {
                assert(t[k].id@ == b);
            }
            assert(spec_registered(t, b));
        }
    }
    assert forall|b: Seq<char>| b != s[i].id@ implies #[trigger] spec_balance_of(t, b)
        == spec_balance_of(s, b) by {
        if spec_registered(s, b) {
            let k = index_of(s, b);
            assert(0 <= k < s.len() && s[k].id@ == b);
            lemma_entry_resolves(s, k);
            assert(k != i);
            if k == n - 1 {
                assert(i < n - 1);
                assert(t[i].id@ == b);
                lemma_entry_resolves_helper(t, i, b);
                assert(t[i].balance == s[k].balance);
            } else {
                assert(t[k].id@ == b);
                lemma_entry_resolves_helper(t, k, b);
                assert(t[k].balance == s[k].balance);
            }
        }
    }
}

/// With unique ids, a slot known to name `b` is the slot `b` resolves to.
proof fn lemma_entry_resolves_helper(t: Seq<AccountEntry>, j: int, b: Seq<char>)
    requires
        unique_ids(t),
        0 <= j < t.len(),
        t[j].id@ == b,
    ensures
        spec_registered(t, b),
        spec_balance_of(t, b) == t[j].balance,
{
    lemma_entry_resolves(t, j);
}

} // verus!
