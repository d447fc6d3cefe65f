//! An association table from `u128` keys to `u128` amounts, where an absent
//! key holds zero. It tracks the sum of all its amounts.
use vstd::prelude::*;

verus! {

/// The amount held under `key`: the sum of the entries that carry it.
pub open spec fn amount_at(s: Seq<(u128, u128)>, key: u128) -> nat
    decreases s.len(),
{
    if s.len() == 0 {
        0
    } else {
        amount_at(s.drop_last(), key) + if s.last().0 == key {
            s.last().1 as nat
        } else {
            0nat
        }
    }
}

/// The sum of all amounts in the table.
pub open spec fn amount_sum(s: Seq<(u128, u128)>) -> nat
    decreases s.len(),
{
    if s.len() == 0 {
        0
    } else {
        amount_sum(s.drop_last()) + s.last().1 as nat
    }
}

/// No key occurs twice.
pub open spec fn keys_unique(s: Seq<(u128, u128)>) -> bool {
    forall|i: int, j: int| 0 <= i < j < s.len() ==> s[i].0 != s[j].0
}

proof fn lemma_absent(s: Seq<(u128, u128)>, key: u128)
    requires
        forall|i: int| 0 <= i < s.len() ==> s[i].0 != key,
    ensures
        amount_at(s, key) == 0,
    decreases s.len(),
{
    if s.len() > 0 {
        lemma_absent(s.drop_last(), key);
    }
}

proof fn lemma_present(s: Seq<(u128, u128)>, i: int)
    requires
        keys_unique(s),
        0 <= i < s.len(),
    ensures
        amount_at(s, s[i].0) == s[i].1,
    decreases s.len(),
{
    let p = s.drop_last();
    if i == s.len() - 1 {
        lemma_absent(p, s[i].0);
    } else {
        lemma_present(p, i);
    }
}

proof fn lemma_update(s: Seq<(u128, u128)>, i: int, v: u128, key: u128)
    requires
        0 <= i < s.len(),
    ensures
        amount_sum(s.update(i, (s[i].0, v))) == amount_sum(s) - s[i].1 + v,
        key == s[i].0 ==> amount_at(s.update(i, (s[i].0, v)), key) == amount_at(s, key) - s[i].1
            + v,
        key != s[i].0 ==> amount_at(s.update(i, (s[i].0, v)), key) == amount_at(s, key),
    decreases s.len(),
{
    let u = s.update(i, (s[i].0, v));
    if i == s.len() - 1 {
        assert(u.drop_last() =~= s.drop_last());
    } else {
        lemma_update(s.drop_last(), i, v, key);
        assert(u.drop_last() =~= s.drop_last().update(i, (s[i].0, v)));
    }
}

proof fn lemma_push(s: Seq<(u128, u128)>, e: (u128, u128), key: u128)
    ensures
        amount_sum(s.push(e)) == amount_sum(s) + e.1,
        amount_at(s.push(e), key) == amount_at(s, key) + if e.0 == key {
            e.1 as nat
        } else {
            0nat
        },
{
    assert(s.push(e).drop_last() =~= s);
}

proof fn lemma_at_le_sum(s: Seq<(u128, u128)>, key: u128)
    ensures
        amount_at(s, key) <= amount_sum(s),
    decreases s.len(),
{
    if s.len() > 0 {
        lemma_at_le_sum(s.drop_last(), key);
    }
}

/// The table key for an ordered pair of identifiers.
pub open spec fn pair_key_spec(a: u64, b: u64) -> u128 {
    (a as int * 0x1_0000_0000_0000_0000 + b as int) as u128
}

pub fn pair_key(a: u64, b: u64) -> (r: u128)
    ensures
        r == pair_key_spec(a, b),
{
    proof {
        assert(a as int * 0x1_0000_0000_0000_0000 <= 0xffff_ffff_ffff_ffff * 0x1_0000_0000_0000_0000)
            by (nonlinear_arith)
            requires
                a <= 0xffff_ffff_ffff_ffff,
        ;
    }
    (a as u128) * 0x1_0000_0000_0000_0000 + (b as u128)
}

/// Distinct pairs have distinct keys.
pub proof fn lemma_pair_key_injective(a1: u64, b1: u64, a2: u64, b2: u64)
    requires
        pair_key_spec(a1, b1) == pair_key_spec(a2, b2),
    ensures
        a1 == a2,
        b1 == b2,
{
    let m: int = 0x1_0000_0000_0000_0000;
    assert(a1 as int * m <= 0xffff_ffff_ffff_ffff * m) by (nonlinear_arith)
        requires
            a1 <= 0xffff_ffff_ffff_ffff,
            m > 0,
    ;
    assert(a2 as int * m <= 0xffff_ffff_ffff_ffff * m) by (nonlinear_arith)
        requires
            a2 <= 0xffff_ffff_ffff_ffff,
            m > 0,
    ;
    assert(a1 as int * m + b1 as int == a2 as int * m + b2 as int);
    assert(a1 == a2 && b1 == b2) by (nonlinear_arith)
        requires
            a1 as int * m + b1 as int == a2 as int * m + b2 as int,
            0 <= b1 < m,
            0 <= b2 < m,
            a1 >= 0,
            a2 >= 0,
            m == 0x1_0000_0000_0000_0000,
    ;
}

/// Amounts by key; every key not stored holds zero.
pub struct AmountTable {
    entries: Vec<(u128, u128)>,
}

impl AmountTable {
    /// Keys are stored at most once.
    pub closed spec fn wf(&self) -> bool {
        keys_unique(self.entries@)
    }

    /// The amount held under `key`.
    pub closed spec fn value(&self, key: u128) -> nat {
        amount_at(self.entries@, key)
    }

    /// The sum of every amount in the table.
    pub closed spec fn total(&self) -> nat {
        amount_sum(self.entries@)
    }

    pub fn new() -> (r: AmountTable)
        ensures
            r.wf(),
            r.total() == 0,
            forall|k: u128| #[trigger] r.value(k) == 0,
    {
        AmountTable { entries: Vec::new() }
    }

    /// A table holding `amount` under `key` alone.
    pub fn singleton(key: u128, amount: u128) -> (r: AmountTable)
        ensures
            r.wf(),
            r.total() == amount,
            r.value(key) == amount,
            forall|k: u128| k != key ==> #[trigger] r.value(k) == 0,
    {
        let mut entries: Vec<(u128, u128)> = Vec::new();
        entries.push((key, amount));
        proof {
            assert forall|k: u128| k != key implies #[trigger] amount_at(entries@, k) == 0 by {
                lemma_absent(entries@, k);
            }
            lemma_present(entries@, 0);
            lemma_push(Seq::<(u128, u128)>::empty(), (key, amount), key);
            assert(entries@ =~= Seq::<(u128, u128)>::empty().push((key, amount)));
        }
        AmountTable { entries }
    }

    fn find(&self, key: u128) -> (r: Option<usize>)
        ensures
            match r {
                Some(i) => i < self.entries@.len() && self.entries@[i as int].0 == key,
                None => forall|j: int| 0 <= j < self.entries@.len() ==> self.entries@[j].0 != key,
            },
    {
        let mut i: usize = 0;
        while i < self.entries.len()
            invariant
                i <= self.entries@.len(),
                forall|j: int| 0 <= j < i ==> self.entries@[j].0 != key,
            decreases self.entries@.len() - i,
        {
            if self.entries[i].0 == key {
                return Some(i);
            }
            i = i + 1;
        }
        None
    }

    pub fn get(&self, key: u128) -> (r: u128)
        requires
            self.wf(),
        ensures
            r == self.value(key),
    {
        match self.find(key) {
            Some(i) => {
                proof {
                    lemma_present(self.entries@, i as int);
                }
                self.entries[i].1
            },
            None => {
                proof {
                    lemma_absent(self.entries@, key);
                }
                0
            },
        }
    }

    /// Stores `amount` under `key`, leaving every other key as it was.
    pub fn set(&mut self, key: u128, amount: u128)
        requires
            old(self).wf(),
        ensures
            final(self).wf(),
            final(self).value(key) == amount,
            forall|k: u128| k != key ==> #[trigger] final(self).value(k) == old(self).value(k),
            final(self).total() == old(self).total() - old(self).value(key) + amount,
    {
        match self.find(key) {
            Some(i) => {
                let ghost s = self.entries@;
                proof {
                    lemma_present(s, i as int);
                    lemma_update(s, i as int, amount, key);
                }
                self.entries.set(i, (key, amount));
                proof {
                    assert(self.entries@ == s.update(i as int, (s[i as int].0, amount)));
                    assert forall|k: u128| k != key implies #[trigger] amount_at(self.entries@, k)
                        == amount_at(s, k) by {
                        lemma_update(s, i as int, amount, k);
                    }
                }
            },
            None => {
                let ghost s = self.entries@;
                proof {
                    lemma_absent(s, key);
                    lemma_push(s, (key, amount), key);
                }
                self.entries.push((key, amount));
                proof {
                    assert forall|k: u128| k != key implies #[trigger] amount_at(self.entries@, k)
                        == amount_at(s, k) by {
                        lemma_push(s, (key, amount), k);
                    }
                }
            },
        }
    }

    /// No single amount exceeds the total.
    pub proof fn lemma_value_le_total(&self, key: u128)
        ensures
            self.value(key) <= self.total(),
    {
        lemma_at_le_sum(self.entries@, key);
    }
}

} // verus!
