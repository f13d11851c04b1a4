//! Association tables held as sequences of (key, value) pairs, and the
//! facts about them that the ledger relies on.
use vstd::prelude::*;

verus! {

/// No key occurs twice in the table.
pub open spec fn keys_unique<K, V>(s: Seq<(K, V)>) -> bool {
    forall|i: int, j: int| 0 <= i < j < s.len() ==> s[i].0 != s[j].0
}

/// The value stored under `k`, if any (the latest entry wins).
pub open spec fn lookup<K, V>(s: Seq<(K, V)>, k: K) -> Option<V>
    decreases s.len(),
{
    if s.len() == 0 {
        None
    } else if s.last().0 == k {
        Some(s.last().1)
    } else {
        lookup(s.drop_last(), k)
    }
}

/// Every amount in the table is non-negative.
pub open spec fn amounts_nonneg<K>(s: Seq<(K, i128)>) -> bool {
    forall|i: int| 0 <= i < s.len() ==> s[i].1 >= 0
}

/// The sum of all amounts in the table.
pub open spec fn sum_amounts<K>(s: Seq<(K, i128)>) -> int
    decreases s.len(),
{
    if s.len() == 0 {
        0
    } else {
        sum_amounts(s.drop_last()) + s.last().1
    }
}

proof fn lemma_unique_prefix<K, V>(s: Seq<(K, V)>)
    requires
        keys_unique(s),
        s.len() > 0,
    ensures
        keys_unique(s.drop_last()),
{
    let t = s.drop_last();
    assert forall|i: int, j: int| 0 <= i < j < t.len() implies t[i].0 != t[j].0 by {
        assert(t[i] == s[i] && t[j] == s[j]);
    }
}

/// In a table with unique keys, the entry at `i` is what its key looks up.
pub proof fn lemma_lookup_at<K, V>(s: Seq<(K, V)>, i: int)
    requires
        keys_unique(s),
        0 <= i < s.len(),
    ensures
        lookup(s, s[i].0) == Some(s[i].1),
    decreases s.len(),
{
    if i < s.len() - 1 {
        let t = s.drop_last();
        assert(s[i].0 != s[s.len() - 1].0);
        lemma_unique_prefix(s);
        lemma_lookup_at(t, i);
        assert(t[i] == s[i]);
    }
}

/// A key that no entry holds looks up to nothing.
pub proof fn lemma_lookup_absent<K, V>(s: Seq<(K, V)>, k: K)
    requires
        forall|i: int| 0 <= i < s.len() ==> s[i].0 != k,
    ensures
        lookup(s, k) is None,
    decreases s.len(),
{
    if s.len() > 0 {
        let t = s.drop_last();
        assert forall|i: int| 0 <= i < t.len() implies t[i].0 != k by {
            assert(t[i] == s[i]);
        }
        lemma_lookup_absent(t, k);
    }
}

/// A key that looks up to a value is held by an entry with that value.
pub proof fn lemma_lookup_found<K, V>(s: Seq<(K, V)>, k: K)
    requires
        lookup(s, k) is Some,
    ensures
        exists|i: int| 0 <= i < s.len() && s[i].0 == k && lookup(s, k) == Some(s[i].1),
    decreases s.len(),
{
    if s.last().0 == k {
        assert(s[s.len() - 1] == s.last());
    } else {
        let t = s.drop_last();
        lemma_lookup_found(t, k);
        let i = choose|i: int| 0 <= i < t.len() && t[i].0 == k && lookup(t, k) == Some(t[i].1);
        assert(t[i] == s[i]);
    }
}

/// Overwriting the value of entry `i` changes what its key looks up to, and
/// nothing else.
pub proof fn lemma_lookup_update<K, V>(s: Seq<(K, V)>, i: int, v: V)
    requires
        keys_unique(s),
        0 <= i < s.len(),
    ensures
        keys_unique(s.update(i, (s[i].0, v))),
        forall|k: K|
            #[trigger] lookup(s.update(i, (s[i].0, v)), k) == if k == s[i].0 {
                Some(v)
            } else {
                lookup(s, k)
            },
    decreases s.len(),
{
    let t = s.update(i, (s[i].0, v));
    assert forall|a: int, b: int| 0 <= a < b < t.len() implies t[a].0 != t[b].0 by {
        assert(t[a].0 == s[a].0 && t[b].0 == s[b].0);
    }
    if i == s.len() - 1 {
        assert(t.drop_last() =~= s.drop_last());
    } else {
        lemma_unique_prefix(s);
        lemma_lookup_update(s.drop_last(), i, v);
        assert(s.drop_last()[i] == s[i]);
        assert(t.drop_last() =~= s.drop_last().update(i, (s[i].0, v)));
        assert(t.last() == s.last());
        assert(s[s.len() - 1].0 != s[i].0);
        assert forall|k: K| #[trigger]
            lookup(t, k) == if k == s[i].0 {
                Some(v)
            } else {
                lookup(s, k)
            } by {
            if s.last().0 == k {
                assert(lookup(t, k) == Some(s.last().1));
            } else {
                assert(lookup(t, k) == lookup(t.drop_last(), k));
                assert(lookup(s, k) == lookup(s.drop_last(), k));
            }
        }
    }
}

/// Appending an entry under a fresh key keeps the keys unique.
pub proof fn lemma_push_unique<K, V>(s: Seq<(K, V)>, k: K, v: V)
    requires
        keys_unique(s),
        forall|i: int| 0 <= i < s.len() ==> s[i].0 != k,
    ensures
        keys_unique(s.push((k, v))),
{
    let t = s.push((k, v));
    assert forall|a: int, b: int| 0 <= a < b < t.len() implies t[a].0 != t[b].0 by {
        assert(t[a] == s[a]);
        if b < s.len() {
            assert(t[b] == s[b]);
        }
    }
}

/// Overwriting the amount of entry `i` moves the sum by the difference.
pub proof fn lemma_sum_update<K>(s: Seq<(K, i128)>, i: int, v: i128)
    requires
        0 <= i < s.len(),
    ensures
        sum_amounts(s.update(i, (s[i].0, v))) == sum_amounts(s) - s[i].1 + v,
    decreases s.len(),
{
    let t = s.update(i, (s[i].0, v));
    if i == s.len() - 1 {
        assert(t.drop_last() =~= s.drop_last());
    } else {
        lemma_sum_update(s.drop_last(), i, v);
        assert(t.drop_last() =~= s.drop_last().update(i, (s[i].0, v)));
    }
}

/// A sum of non-negative amounts is at least each of them.
pub proof fn lemma_entry_le_sum<K>(s: Seq<(K, i128)>, i: int)
    requires
        amounts_nonneg(s),
        0 <= i < s.len(),
    ensures
        0 <= s[i].1 <= sum_amounts(s),
    decreases s.len(),
{
    lemma_sum_nonneg(s.drop_last());
    if i < s.len() - 1 {
        let t = s.drop_last();
        assert(t[i] == s[i]);
        lemma_entry_le_sum(t, i);
    }
}

/// A sum of non-negative amounts is non-negative.
pub proof fn lemma_sum_nonneg<K>(s: Seq<(K, i128)>)
    requires
        forall|i: int| 0 <= i < s.len() ==> s[i].1 >= 0,
    ensures
        sum_amounts(s) >= 0,
    decreases s.len(),
{
    if s.len() > 0 {
        let t = s.drop_last();
        assert forall|i: int| 0 <= i < t.len() implies t[i].1 >= 0 by {
            assert(t[i] == s[i]);
        }
        lemma_sum_nonneg(t);
        assert(s[s.len() - 1] == s.last());
    }
}

/// A sum of non-negative amounts is at least any two of them together.
pub proof fn lemma_pair_le_sum<K>(s: Seq<(K, i128)>, i: int, j: int)
    requires
        amounts_nonneg(s),
        0 <= i < s.len(),
        0 <= j < s.len(),
        i != j,
    ensures
        s[i].1 + s[j].1 <= sum_amounts(s),
    decreases s.len(),
{
    let t = s.drop_last();
    let n = s.len() - 1;
    assert forall|k: int| 0 <= k < t.len() implies t[k].1 >= 0 by {
        assert(t[k] == s[k]);
    }
    assert(s[n] == s.last());
    if i == n {
        assert(t[j] == s[j]);
        lemma_entry_le_sum(t, j);
    } else if j == n {
        assert(t[i] == s[i]);
        lemma_entry_le_sum(t, i);
    } else {
        assert(t[i] == s[i] && t[j] == s[j]);
        lemma_pair_le_sum(t, i, j);
    }
}

} // verus!
