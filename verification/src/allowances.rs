//! The allowance table: a mapping from (owner, spender) pair to a
//! delegated-spend allowance, stored as an association list with
//! pairwise-distinct keys. An entry decremented to exactly zero is removed.
use vstd::prelude::*;
use crate::amount::Amount;
use crate::types::{Account, AccountV, Allowance, AllowanceV, default_allowance};

verus! {

/// The key view of an entry.
pub open spec fn entry_key(e: (Account, Account, Allowance)) -> (AccountV, AccountV) {
    (e.0@, e.1@)
}

/// The allowance recorded for k: the last matching entry, or the zero
/// default when no entry matches.
pub open spec fn allow_of(s: Seq<(Account, Account, Allowance)>, k: (AccountV, AccountV)) -> AllowanceV
    decreases s.len(),
{
    if s.len() == 0 {
        default_allowance()
    } else if entry_key(s.last()) == k {
        s.last().2@
    } else {
        allow_of(s.drop_last(), k)
    }
}

/// Pairwise-distinct (owner, spender) keys.
pub open spec fn pair_keys_distinct(s: Seq<(Account, Account, Allowance)>) -> bool {
    forall|i: int, j: int|
        0 <= i < j < s.len() ==> (#[trigger] entry_key(s[i])) != (#[trigger] entry_key(s[j]))
}

/// A key matched by no entry has the default allowance.
pub proof fn lemma_allow_absent(s: Seq<(Account, Account, Allowance)>, k: (AccountV, AccountV))
    requires
        forall|i: int| 0 <= i < s.len() ==> (#[trigger] entry_key(s[i])) != k,
    ensures
        allow_of(s, k) == default_allowance(),
    decreases s.len(),
{
    if s.len() > 0 {
        lemma_allow_absent(s.drop_last(), k);
    }
}

/// With distinct keys, the allowance of a present key is its entry's value.
pub proof fn lemma_allow_present(s: Seq<(Account, Account, Allowance)>, i: int, k: (AccountV, AccountV))
    requires
        pair_keys_distinct(s),
        0 <= i < s.len(),
        entry_key(s[i]) == k,
    ensures
        allow_of(s, k) == s[i].2@,
    decreases s.len(),
{
    if i == s.len() - 1 {
    } else {
        assert(entry_key(s.last()) != k);
        lemma_allow_present(s.drop_last(), i, k);
    }
}

/// Removing entry i resets its key to the default and keeps every other key.
pub proof fn lemma_allow_remove(s: Seq<(Account, Account, Allowance)>, i: int, k: (AccountV, AccountV))
    requires
        pair_keys_distinct(s),
        0 <= i < s.len(),
    ensures
        allow_of(s.remove(i), k) == if entry_key(s[i]) == k {
            default_allowance()
        } else {
            allow_of(s, k)
        },
    decreases s.len(),
{
    let t = s.remove(i);
    if i == s.len() - 1 {
        assert(t =~= s.drop_last());
        if entry_key(s[i]) == k {
            assert(forall|j: int| 0 <= j < t.len() ==> (#[trigger] entry_key(t[j])) != k);
            lemma_allow_absent(t, k);
        }
    } else {
        assert(t.last() == s.last());
        assert(t.drop_last() =~= s.drop_last().remove(i));
        assert(pair_keys_distinct(s.drop_last()));
        lemma_allow_remove(s.drop_last(), i, k);
    }
}

/// Appending an entry sets its key and keeps every other key.
pub proof fn lemma_allow_push(
    s: Seq<(Account, Account, Allowance)>,
    e: (Account, Account, Allowance),
    k: (AccountV, AccountV),
)
    ensures
        allow_of(s.push(e), k) == if entry_key(e) == k {
            e.2@
        } else {
            allow_of(s, k)
        },
{
    assert(s.push(e).drop_last() =~= s);
}

/// The allowance table.
pub struct AllowanceStore {
    entries: Vec<(Account, Account, Allowance)>,
}

impl AllowanceStore {
    /// Well-formed: pairwise-distinct (owner, spender) keys.
    pub closed spec fn wf(&self) -> bool {
        pair_keys_distinct(self.entries@)
    }

    /// The allowance of k, the zero default when absent.
    pub closed spec fn allow(&self, k: (AccountV, AccountV)) -> AllowanceV {
        allow_of(self.entries@, k)
    }

    /// An empty table: every pair has the default allowance.
    pub fn new() -> (r: Self)
        ensures
            r.wf(),
            forall|k: (AccountV, AccountV)| r.allow(k) == default_allowance(),
    {
        let r = AllowanceStore { entries: Vec::new() };
        proof {
            assert(forall|k: (AccountV, AccountV)|
                allow_of(Seq::<(Account, Account, Allowance)>::empty(), k)
                    == default_allowance());
        }
        r
    }

    /// The index of the entry for the given pair, where one exists.
    fn find(&self, owner: &Account, spender: &Account) -> (r: Option<usize>)
        ensures
            match r {
                Some(i) => i < self.entries@.len() && entry_key(self.entries@[i as int]) == (
                owner@,
                spender@,
                ),
                None => forall|i: int|
                    0 <= i < self.entries@.len() ==> (#[trigger] entry_key(self.entries@[i])) != (
                    owner@,
                    spender@,
                    ),
            },
    {
        let mut i: usize = 0;
        while i < self.entries.len()
            invariant
                i <= self.entries@.len(),
                forall|j: int|
                    0 <= j < i ==> (#[trigger] entry_key(self.entries@[j])) != (owner@, spender@),
            decreases self.entries@.len() - i,
        {
            if self.entries[i].0.eq_account(owner) && self.entries[i].1.eq_account(spender) {
                return Some(i);
            }
            i += 1;
        }
        None
    }

    /// Returns the pair's allowance; the zero default when no entry
    /// exists. Read-only.
    pub fn allowance_of(&self, owner: &Account, spender: &Account) -> (r: Allowance)
        requires
            self.wf(),
        ensures
            r@ == self.allow((owner@, spender@)),
    {
        match self.find(owner, spender) {
            Some(i) => {
                proof {
                    lemma_allow_present(self.entries@, i as int, (owner@, spender@));
                }
                self.entries[i].2.clone()
            },
            None => {
                proof {
                    lemma_allow_absent(self.entries@, (owner@, spender@));
                }
                Allowance { allowance: Amount::zero(), expires_at: None }
            },
        }
    }

    /// Replaces the pair's entry with the given allowance.
    pub fn set(&mut self, owner: Account, spender: Account, value: Allowance)
        requires
            old(self).wf(),
        ensures
            final(self).wf(),
            forall|k: (AccountV, AccountV)|
                #[trigger] final(self).allow(k) == if k == (owner@, spender@) {
                    value@
                } else {
                    old(self).allow(k)
                },
    {
        let ghost s0 = self.entries@;
        let ghost key = (owner@, spender@);
        match self.find(&owner, &spender) {
            Some(i) => {
                self.entries.remove(i);
                let ghost s1 = self.entries@;
                let entry = (owner, spender, value);
                self.entries.push(entry);
                proof {
                    assert forall|k: (AccountV, AccountV)| true implies #[trigger] allow_of(
                        self.entries@,
                        k,
                    ) == if k == key {
                        value@
                    } else {
                        allow_of(s0, k)
                    } by {
                        lemma_allow_remove(s0, i as int, k);
                        lemma_allow_push(s1, entry, k);
                    }
                    assert(pair_keys_distinct(s1));
                    assert(forall|j: int|
                        0 <= j < s1.len() ==> (#[trigger] entry_key(s1[j])) != key);
                    assert(pair_keys_distinct(self.entries@));
                }
            },
            None => {
                let entry = (owner, spender, value);
                self.entries.push(entry);
                proof {
                    assert forall|k: (AccountV, AccountV)| true implies #[trigger] allow_of(
                        self.entries@,
                        k,
                    ) == if k == key {
                        value@
                    } else {
                        allow_of(s0, k)
                    } by {
                        lemma_allow_push(s0, entry, k);
                        if k == key {
                            lemma_allow_absent(s0, k);
                        } else {
                        }
                        if k == key {
                            assert(allow_of(self.entries@, k) == value@);
                        }
                    }
                    assert(pair_keys_distinct(self.entries@));
                }
            },
        }
    }

    /// Removes the pair's entry, returning its allowance to the default.
    /// Used when a decremented allowance reaches exactly zero.
    pub fn clear(&mut self, owner: &Account, spender: &Account)
        requires
            old(self).wf(),
        ensures
            final(self).wf(),
            forall|k: (AccountV, AccountV)|
                #[trigger] final(self).allow(k) == if k == (owner@, spender@) {
                    default_allowance()
                } else {
                    old(self).allow(k)
                },
    {
        let ghost s0 = self.entries@;
        let ghost key = (owner@, spender@);
        match self.find(owner, spender) {
            Some(i) => {
                self.entries.remove(i);
                proof {
                    assert forall|k: (AccountV, AccountV)| true implies #[trigger] allow_of(
                        self.entries@,
                        k,
                    ) == if k == key {
                        default_allowance()
                    } else {
                        allow_of(s0, k)
                    } by {
                        lemma_allow_remove(s0, i as int, k);
                    }
                    assert(pair_keys_distinct(self.entries@));
                }
            },
            None => {
                proof {
                    assert forall|k: (AccountV, AccountV)| true implies #[trigger] allow_of(
                        self.entries@,
                        k,
                    ) == if k == key {
                        default_allowance()
                    } else {
                        allow_of(s0, k)
                    } by {
                        if k == key {
                            lemma_allow_absent(s0, k);
                        }
                    }
                }
            },
        }
    }
}

} // verus!
