//! The balance table: a mapping from account to nonnegative amount,
//! stored as an association list with pairwise-distinct keys.
use vstd::prelude::*;
use crate::amount::Amount;
use crate::types::{Account, AccountV};

verus! {

/// The balance recorded for k: the amount of the last matching entry, or
/// zero when no entry matches.
pub open spec fn bal_of(s: Seq<(Account, Amount)>, k: AccountV) -> nat
    decreases s.len(),
{
    if s.len() == 0 {
        0
    } else if s.last().0@ == k {
        s.last().1@
    } else {
        bal_of(s.drop_last(), k)
    }
}

/// The sum of all recorded amounts.
pub open spec fn sum_of(s: Seq<(Account, Amount)>) -> nat
    decreases s.len(),
{
    if s.len() == 0 {
        0
    } else {
        sum_of(s.drop_last()) + s.last().1@
    }
}

/// The sum of the amounts recorded under k, over all entries.
pub open spec fn key_total(s: Seq<(Account, Amount)>, k: AccountV) -> nat
    decreases s.len(),
{
    if s.len() == 0 {
        0
    } else {
        key_total(s.drop_last(), k) + if s.last().0@ == k {
            s.last().1@
        } else {
            0
        }
    }
}

/// Pairwise-distinct account keys.
pub open spec fn keys_distinct(s: Seq<(Account, Amount)>) -> bool {
    forall|i: int, j: int|
        0 <= i < j < s.len() ==> (#[trigger] s[i].0@) != (#[trigger] s[j].0@)
}

/// A key matched by no entry has balance zero.
pub proof fn lemma_bal_absent(s: Seq<(Account, Amount)>, k: AccountV)
    requires
        forall|i: int| 0 <= i < s.len() ==> (#[trigger] s[i].0@) != k,
    ensures
        bal_of(s, k) == 0,
    decreases s.len(),
{
    if s.len() > 0 {
        lemma_bal_absent(s.drop_last(), k);
    }
}

/// With distinct keys, the balance of a present key is its entry's amount.
pub proof fn lemma_bal_present(s: Seq<(Account, Amount)>, i: int, k: AccountV)
    requires
        keys_distinct(s),
        0 <= i < s.len(),
        s[i].0@ == k,
    ensures
        bal_of(s, k) == s[i].1@,
    decreases s.len(),
{
    if i == s.len() - 1 {
    } else {
        assert(s.last().0@ != k);
        lemma_bal_present(s.drop_last(), i, k);
    }
}

/// Removing entry i zeroes its key's balance and keeps every other balance.
pub proof fn lemma_bal_remove(s: Seq<(Account, Amount)>, i: int, k: AccountV)
    requires
        keys_distinct(s),
        0 <= i < s.len(),
    ensures
        bal_of(s.remove(i), k) == if s[i].0@ == k {
            0
        } else {
            bal_of(s, k)
        },
    decreases s.len(),
{
    let t = s.remove(i);
    if i == s.len() - 1 {
        assert(t =~= s.drop_last());
        if s[i].0@ == k {
            assert(forall|j: int| 0 <= j < t.len() ==> (#[trigger] t[j].0@) != k);
            lemma_bal_absent(t, k);
        }
    } else {
        assert(t.last() == s.last());
        assert(t.drop_last() =~= s.drop_last().remove(i));
        assert(keys_distinct(s.drop_last()));
        lemma_bal_remove(s.drop_last(), i, k);
    }
}

/// Appending an entry sets its key's balance and keeps every other balance.
pub proof fn lemma_bal_push(s: Seq<(Account, Amount)>, e: (Account, Amount), k: AccountV)
    ensures
        bal_of(s.push(e), k) == if e.0@ == k {
            e.1@
        } else {
            bal_of(s, k)
        },
{
    assert(s.push(e).drop_last() =~= s);
}

/// Removing entry i subtracts its amount from the sum.
pub proof fn lemma_sum_remove(s: Seq<(Account, Amount)>, i: int)
    requires
        0 <= i < s.len(),
    ensures
        sum_of(s.remove(i)) + s[i].1@ == sum_of(s),
    decreases s.len(),
{
    let t = s.remove(i);
    if i == s.len() - 1 {
        assert(t =~= s.drop_last());
    } else {
        assert(t.last() == s.last());
        assert(t.drop_last() =~= s.drop_last().remove(i));
        lemma_sum_remove(s.drop_last(), i);
    }
}

/// Appending an entry adds its amount to the sum.
pub proof fn lemma_sum_push(s: Seq<(Account, Amount)>, e: (Account, Amount))
    ensures
        sum_of(s.push(e)) == sum_of(s) + e.1@,
{
    assert(s.push(e).drop_last() =~= s);
}

/// No balance exceeds the sum of all balances.
pub proof fn lemma_bal_le_sum(s: Seq<(Account, Amount)>, k: AccountV)
    ensures
        bal_of(s, k) <= sum_of(s),
    decreases s.len(),
{
    if s.len() > 0 && s.last().0@ != k {
        lemma_bal_le_sum(s.drop_last(), k);
    }
}

/// The balance table. An account with balance zero may keep an explicit
/// entry; absence means zero.
pub struct BalanceLedger {
    entries: Vec<(Account, Amount)>,
}

impl BalanceLedger {
    /// Well-formed: pairwise-distinct account keys.
    pub closed spec fn wf(&self) -> bool {
        keys_distinct(self.entries@)
    }

    /// The balance of k, zero when absent.
    pub closed spec fn bal(&self, k: AccountV) -> nat {
        bal_of(self.entries@, k)
    }

    /// The sum of all balances.
    pub closed spec fn total(&self) -> nat {
        sum_of(self.entries@)
    }

    /// No balance exceeds the sum of all balances.
    pub proof fn lemma_bal_le_total(&self, k: AccountV)
        ensures
            self.bal(k) <= self.total(),
    {
        lemma_bal_le_sum(self.entries@, k);
    }

    /// An empty table: every balance is zero.
    pub fn new() -> (r: Self)
        ensures
            r.wf(),
            forall|k: AccountV| r.bal(k) == 0,
            r.total() == 0,
    {
        let r = BalanceLedger { entries: Vec::new() };
        proof {
            assert(forall|k: AccountV| r.bal(k) == 0) by {
                assert(forall|k: AccountV| bal_of(Seq::<(Account, Amount)>::empty(), k) == 0);
            }
        }
        r
    }

    /// The index of the entry for the given account, where one exists.
    fn find(&self, account: &Account) -> (r: Option<usize>)
        ensures
            match r {
                Some(i) => i < self.entries@.len() && self.entries@[i as int].0@ == account@,
                None => forall|i: int|
                    0 <= i < self.entries@.len() ==> (#[trigger] self.entries@[i].0@) != account@,
            },
    {
        let mut i: usize = 0;
        while i < self.entries.len()
            invariant
                i <= self.entries@.len(),
                forall|j: int| 0 <= j < i ==> (#[trigger] self.entries@[j].0@) != account@,
            decreases self.entries@.len() - i,
        {
            if self.entries[i].0.eq_account(account) {
                return Some(i);
            }
            i += 1;
        }
        None
    }

    /// Returns the account's balance; zero when no entry exists. Read-only.
    pub fn balance_of(&self, account: &Account) -> (r: Amount)
        requires
            self.wf(),
        ensures
            r@ == self.bal(account@),
    {
        match self.find(account) {
            Some(i) => {
                proof {
                    lemma_bal_present(self.entries@, i as int, account@);
                }
                self.entries[i].1.clone()
            },
            None => {
                proof {
                    lemma_bal_absent(self.entries@, account@);
                }
                Amount::zero()
            },
        }
    }

    /// Adds amount to the account's balance, creating an entry if absent.
    pub fn credit(&mut self, account: &Account, amount: &Amount)
        requires
            old(self).wf(),
        ensures
            final(self).wf(),
            forall|k: AccountV|
                #[trigger] final(self).bal(k) == if k == account@ {
                    old(self).bal(k) + amount@
                } else {
                    old(self).bal(k)
                },
            final(self).total() == old(self).total() + amount@,
    {
        let ghost s0 = self.entries@;
        match self.find(account) {
            Some(i) => {
                let (acc, cur) = self.entries.remove(i);
                let ghost s1 = self.entries@;
                let next = cur.add(amount);
                self.entries.push((acc, next));
                proof {
                    lemma_bal_present(s0, i as int, account@);
                    lemma_sum_remove(s0, i as int);
                    lemma_sum_push(s1, (acc, next));
                    assert(forall|k: AccountV| #[trigger]
                        bal_of(self.entries@, k) == if k == account@ {
                            bal_of(s0, k) + amount@
                        } else {
                            bal_of(s0, k)
                        }) by {
                        assert forall|k: AccountV| true implies #[trigger] bal_of(self.entries@, k)
                            == if k == account@ {
                            bal_of(s0, k) + amount@
                        } else {
                            bal_of(s0, k)
                        } by {
                            lemma_bal_remove(s0, i as int, k);
                            lemma_bal_push(s1, (acc, next), k);
                        }
                    }
                    assert(keys_distinct(s1));
                    assert(forall|j: int| 0 <= j < s1.len() ==> (#[trigger] s1[j].0@) != account@);
                    assert(keys_distinct(self.entries@));
                }
            },
            None => {
                let entry = (account.clone(), amount.clone());
                self.entries.push(entry);
                proof {
                    lemma_bal_absent(s0, account@);
                    lemma_sum_push(s0, entry);
                    assert forall|k: AccountV| true implies #[trigger] bal_of(self.entries@, k)
                        == if k == account@ {
                        bal_of(s0, k) + amount@
                    } else {
                        bal_of(s0, k)
                    } by {
                        lemma_bal_push(s0, entry, k);
                        if k == account@ {
                            lemma_bal_absent(s0, k);
                        }
                    }
                    assert(keys_distinct(self.entries@));
                }
            },
        }
    }

    /// Subtracts amount from the account's balance. Reports failure, and
    /// changes nothing, when the amount exceeds the current balance: a
    /// balance never goes below zero.
    pub fn debit(&mut self, account: &Account, amount: &Amount) -> (r: bool)
        requires
            old(self).wf(),
        ensures
            final(self).wf(),
            r == (amount@ <= old(self).bal(account@)),
            r ==> forall|k: AccountV|
                #[trigger] final(self).bal(k) == if k == account@ {
                    old(self).bal(k) - amount@
                } else {
                    old(self).bal(k) as int
                },
            r ==> final(self).total() == old(self).total() - amount@,
            !r ==> *final(self) == *old(self),
    {
        let ghost s0 = self.entries@;
        match self.find(account) {
            Some(i) => {
                proof {
                    lemma_bal_present(s0, i as int, account@);
                }
                if amount.le(&self.entries[i].1) {
                    let (acc, cur) = self.entries.remove(i);
                    let ghost s1 = self.entries@;
                    let next = match cur.checked_sub(amount) {
                        Some(d) => d,
                        None => {
                            proof {
                                assert(false);
                            }
                            Amount::zero()
                        },
                    };
                    self.entries.push((acc, next));
                    proof {
                        lemma_sum_remove(s0, i as int);
                        lemma_sum_push(s1, (acc, next));
                        assert forall|k: AccountV| true implies #[trigger] bal_of(self.entries@, k)
                            == if k == account@ {
                            bal_of(s0, k) - amount@
                        } else {
                            bal_of(s0, k) as int
                        } by {
                            lemma_bal_remove(s0, i as int, k);
                            lemma_bal_push(s1, (acc, next), k);
                        }
                        assert(keys_distinct(s1));
                        assert(forall|j: int|
                            0 <= j < s1.len() ==> (#[trigger] s1[j].0@) != account@);
                        assert(keys_distinct(self.entries@));
                    }
                    true
                } else {
                    false
                }
            },
            None => {
                proof {
                    lemma_bal_absent(s0, account@);
                }
                let r = amount.is_zero();
                proof {
                    if r {
                        assert(forall|k: AccountV| #[trigger]
                            bal_of(s0, k) == bal_of(self.entries@, k));
                    }
                }
                r
            },
        }
    }
}

} // verus!
