use vstd::prelude::*;
use candid::Nat;
use crate::account::{AccountId, AccountKey, account_eq, clone_account};
use crate::bignat::{nat_value, nat_add, nat_sub, nat_clone, nat_from_u64};

verus! {

/// The amount recorded for a key: the value of the first entry whose key
/// matches, or zero when no entry does.
pub open spec fn seq_lookup(s: Seq<(AccountId, Nat)>, k: AccountKey) -> nat
    decreases s.len(),
{
    if s.len() == 0 {
        0
    } else if s[0].0@ == k {
        nat_value(s[0].1)
    } else {
        seq_lookup(s.drop_first(), k)
    }
}

/// The sum of all recorded amounts.
pub open spec fn seq_sum(s: Seq<(AccountId, Nat)>) -> nat
    decreases s.len(),
{
    if s.len() == 0 {
        0
    } else {
        nat_value(s[0].1) + seq_sum(s.drop_first())
    }
}

/// No two entries share a key.
pub open spec fn distinct_keys(s: Seq<(AccountId, Nat)>) -> bool {
    forall|i: int, j: int| 0 <= i < j < s.len() ==> s[i].0@ != s[j].0@
}

pub proof fn lemma_lookup_absent(s: Seq<(AccountId, Nat)>, k: AccountKey)
    requires
        forall|j: int| 0 <= j < s.len() ==> s[j].0@ != k,
    ensures
        seq_lookup(s, k) == 0,
    decreases s.len(),
{
    if s.len() > 0 {
        lemma_lookup_absent(s.drop_first(), k);
    }
}

pub proof fn lemma_lookup_first_match(s: Seq<(AccountId, Nat)>, i: int)
    requires
        0 <= i < s.len(),
        forall|j: int| 0 <= j < i ==> s[j].0@ != s[i].0@,
    ensures
        seq_lookup(s, s[i].0@) == nat_value(s[i].1),
    decreases s.len(),
{
    if i > 0 {
        assert(s.drop_first()[i - 1] == s[i]);
        assert(forall|j: int| 0 <= j < i - 1 ==> s.drop_first()[j] == s[j + 1]);
        lemma_lookup_first_match(s.drop_first(), i - 1);
    }
}

pub proof fn lemma_lookup_le_sum(s: Seq<(AccountId, Nat)>, k: AccountKey)
    ensures
        seq_lookup(s, k) <= seq_sum(s),
    decreases s.len(),
{
    if s.len() > 0 {
        lemma_lookup_le_sum(s.drop_first(), k);
    }
}

/// Replacing the entry at a first-match position changes that key's amount,
/// leaves every other key's amount alone, and shifts the sum by the
/// difference of the two values.
pub proof fn lemma_update_entry(s: Seq<(AccountId, Nat)>, i: int, e: (AccountId, Nat))
    requires
        0 <= i < s.len(),
        e.0@ == s[i].0@,
        forall|j: int| 0 <= j < i ==> s[j].0@ != s[i].0@,
    ensures
        seq_lookup(s.update(i, e), s[i].0@) == nat_value(e.1),
        seq_lookup(s, s[i].0@) == nat_value(s[i].1),
        forall|k2: AccountKey| k2 != s[i].0@ ==> seq_lookup(s.update(i, e), k2) == seq_lookup(s, k2),
        seq_sum(s.update(i, e)) + nat_value(s[i].1) == seq_sum(s) + nat_value(e.1),
    decreases s.len(),
{
    lemma_lookup_first_match(s, i);
    if i == 0 {
        assert(s.update(0, e)[0] == e);
        assert(s.update(0, e).drop_first() =~= s.drop_first());
    } else {
        assert(s.update(i, e)[0] == s[0]);
        assert(s.update(i, e).drop_first() =~= s.drop_first().update(i - 1, e));
        assert(s.drop_first()[i - 1] == s[i]);
        assert(forall|j: int| 0 <= j < i - 1 ==> s.drop_first()[j] == s[j + 1]);
        lemma_update_entry(s.drop_first(), i - 1, e);
        assert forall|k2: AccountKey| k2 != s[i].0@ implies
            seq_lookup(s.update(i, e), k2) == seq_lookup(s, k2)
        by {
            assert(s.update(i, e).drop_first() == s.drop_first().update(i - 1, e));
            if s[0].0@ == k2 {
                assert(seq_lookup(s.update(i, e), k2) == nat_value(s[0].1));
                assert(seq_lookup(s, k2) == nat_value(s[0].1));
            } else {
                assert(seq_lookup(s.update(i, e), k2)
                    == seq_lookup(s.drop_first().update(i - 1, e), k2));
                assert(seq_lookup(s.drop_first().update(i - 1, e), k2)
                    == seq_lookup(s.drop_first(), k2));
                assert(seq_lookup(s, k2) == seq_lookup(s.drop_first(), k2));
            }
        }
    }
}

/// Appending an entry under a fresh key records its value for that key,
/// leaves every other key's amount alone, and adds its value to the sum.
pub proof fn lemma_push_entry(s: Seq<(AccountId, Nat)>, e: (AccountId, Nat))
    requires
        forall|j: int| 0 <= j < s.len() ==> s[j].0@ != e.0@,
    ensures
        seq_lookup(s.push(e), e.0@) == nat_value(e.1),
        forall|k2: AccountKey| k2 != e.0@ ==> seq_lookup(s.push(e), k2) == seq_lookup(s, k2),
        seq_sum(s.push(e)) == seq_sum(s) + nat_value(e.1),
    decreases s.len(),
{
    if s.len() == 0 {
        assert(s.push(e)[0] == e);
        assert(s.push(e).drop_first() =~= s);
    } else {
        assert(s.push(e)[0] == s[0]);
        assert(s.push(e).drop_first() =~= s.drop_first().push(e));
        lemma_push_entry(s.drop_first(), e);
        assert forall|k2: AccountKey| k2 != e.0@ implies
            seq_lookup(s.push(e), k2) == seq_lookup(s, k2)
        by {
            assert(s.push(e).drop_first() == s.drop_first().push(e));
            if s[0].0@ == k2 {
                assert(seq_lookup(s.push(e), k2) == nat_value(s[0].1));
                assert(seq_lookup(s, k2) == nat_value(s[0].1));
            } else {
                assert(seq_lookup(s.push(e), k2)
                    == seq_lookup(s.drop_first().push(e), k2));
                assert(seq_lookup(s.drop_first().push(e), k2)
                    == seq_lookup(s.drop_first(), k2));
                assert(seq_lookup(s, k2) == seq_lookup(s.drop_first(), k2));
            }
        }
    }
}

/// A per-account ledger of non-negative amounts. Absent keys stand for a
/// zero amount; a zero amount, once recorded, is retained.
pub struct Ledger {
    entries: Vec<(AccountId, Nat)>,
}

impl Ledger {
    /// Well-formed: no key is recorded twice.
    pub closed spec fn wf(self) -> bool {
        distinct_keys(self.entries@)
    }

    /// The amount recorded for a key (zero when absent).
    pub closed spec fn amount_of(self, k: AccountKey) -> nat {
        seq_lookup(self.entries@, k)
    }

    /// The sum of all recorded amounts.
    pub closed spec fn total(self) -> nat {
        seq_sum(self.entries@)
    }

    /// No single entry exceeds the sum of all entries.
    pub proof fn lemma_amount_le_total(self, k: AccountKey)
        ensures
            self.amount_of(k) <= self.total(),
    {
        lemma_lookup_le_sum(self.entries@, k);
    }

    pub fn new() -> (r: Ledger)
        ensures
            r.wf(),
            r.total() == 0,
            forall|k: AccountKey| r.amount_of(k) == 0,
    {
        let r = Ledger { entries: Vec::new() };
        proof {
            assert forall|k: AccountKey| r.amount_of(k) == 0 by {
                lemma_lookup_absent(r.entries@, k);
            }
        }
        r
    }

    /// The position of the entry for this account, if one exists.
    fn find(&self, account: &AccountId) -> (r: Option<usize>)
        ensures
            match r {
                Some(i) => {
                    &&& i < self.entries@.len()
                    &&& self.entries@[i as int].0@ == account@
                    &&& forall|j: int| 0 <= j < i ==> self.entries@[j].0@ != account@
                },
                None => forall|j: int| 0 <= j < self.entries@.len() ==> self.entries@[j].0@ != account@,
            },
    {
        let n = self.entries.len();
        let mut i: usize = 0;
        while i < n
            invariant
                i <= n,
                n == self.entries@.len(),
                forall|j: int| 0 <= j < i ==> self.entries@[j].0@ != account@,
            decreases n - i,
        {
            if account_eq(&self.entries[i].0, account) {
                return Some(i);
            }
            i += 1;
        }
        None
    }

    /// The recorded amount for an account, or zero when none is recorded.
    pub fn get_amount(&self, account: &AccountId) -> (r: Nat)
        ensures
            nat_value(r) == self.amount_of(account@),
    {
        match self.find(account) {
            Some(i) => {
                proof {
                    lemma_lookup_first_match(self.entries@, i as int);
                }
                nat_clone(&self.entries[i].1)
            },
            None => {
                proof {
                    lemma_lookup_absent(self.entries@, account@);
                }
                nat_from_u64(0)
            },
        }
    }

    /// Adds `amount` to the account's entry, creating the entry at zero
    /// first when the account has none.
    pub fn credit(&mut self, account: &AccountId, amount: &Nat)
        requires
            old(self).wf(),
        ensures
            final(self).wf(),
            final(self).amount_of(account@) == old(self).amount_of(account@) + nat_value(*amount),
            forall|k2: AccountKey| k2 != account@ ==> final(self).amount_of(k2) == old(self).amount_of(k2),
            final(self).total() == old(self).total() + nat_value(*amount),
    {
        match self.find(account) {
            Some(i) => {
                let key = clone_account(&self.entries[i].0);
                let value = nat_add(&self.entries[i].1, amount);
                proof {
                    lemma_update_entry(self.entries@, i as int, (key, value));
                }
                self.entries.set(i, (key, value));
                proof {
                    assert forall|i2: int, j2: int|
                        0 <= i2 < j2 < self.entries@.len() implies self.entries@[i2].0@ != self.entries@[j2].0@
                    by {
                        assert(old(self).entries@[i2].0@ != old(self).entries@[j2].0@);
                    }
                }
            },
            None => {
                let key = clone_account(account);
                let value = nat_clone(amount);
                proof {
                    lemma_lookup_absent(self.entries@, account@);
                    lemma_push_entry(self.entries@, (key, value));
                }
                self.entries.push((key, value));
                proof {
                    assert forall|i2: int, j2: int|
                        0 <= i2 < j2 < self.entries@.len() implies self.entries@[i2].0@ != self.entries@[j2].0@
                    by {
                        if j2 < self.entries@.len() - 1 {
                            assert(old(self).entries@[i2].0@ != old(self).entries@[j2].0@);
                        } else {
                            assert(old(self).entries@[i2].0@ != account@);
                        }
                    }
                }
            },
        }
    }

    /// Subtracts `amount` from the account's entry; the entry must cover it.
    pub fn debit(&mut self, account: &AccountId, amount: &Nat)
        requires
            old(self).wf(),
            nat_value(*amount) <= old(self).amount_of(account@),
        ensures
            final(self).wf(),
            final(self).amount_of(account@) == old(self).amount_of(account@) - nat_value(*amount),
            forall|k2: AccountKey| k2 != account@ ==> final(self).amount_of(k2) == old(self).amount_of(k2),
            final(self).total() == old(self).total() - nat_value(*amount),
    {
        match self.find(account) {
            Some(i) => {
                proof {
                    lemma_lookup_first_match(self.entries@, i as int);
                }
                let key = clone_account(&self.entries[i].0);
                let value = nat_sub(&self.entries[i].1, amount);
                proof {
                    lemma_update_entry(self.entries@, i as int, (key, value));
                    lemma_lookup_le_sum(self.entries@, account@);
                }
                self.entries.set(i, (key, value));
                proof {
                    assert forall|i2: int, j2: int|
                        0 <= i2 < j2 < self.entries@.len() implies self.entries@[i2].0@ != self.entries@[j2].0@
                    by {
                        assert(old(self).entries@[i2].0@ != old(self).entries@[j2].0@);
                    }
                }
            },
            None => {
                proof {
                    lemma_lookup_absent(self.entries@, account@);
                }
            },
        }
    }
}

} // verus!
