//! Association-list stores with unique keys. Both cache layers keep their
//! entries in insertion order and never delete them, so a vector of pairs with
//! a first-match lookup is an exact model; `spec_get` is the mathematical
//! reading that every contract in the crate speaks of.

use vstd::prelude::*;
use crate::primitives::Address;
use crate::primitives::B256;

verus! {

/// The value at the first entry of `s` whose key is `k`, if any.
pub open spec fn spec_get<K, V>(s: Seq<(K, V)>, k: K) -> Option<V>
    decreases s.len(),
{
    if s.len() == 0 {
        None
    } else if s[0].0 == k {
        Some(s[0].1)
    } else {
        spec_get(s.drop_first(), k)
    }
}

/// Whether no two entries of `s` share a key.
pub open spec fn unique_keys<K, V>(s: Seq<(K, V)>) -> bool {
    forall|i: int, j: int| 0 <= i < j < s.len() ==> s[i].0 != s[j].0
}

/// A key is missing from the store exactly when no entry carries it.
pub proof fn lemma_get_absent<K, V>(s: Seq<(K, V)>, k: K)
    ensures
        (spec_get(s, k) is None) <==> (forall|i: int| 0 <= i < s.len() ==> s[i].0 != k),
    decreases s.len(),
{
    if s.len() == 0 {
    } else if s[0].0 == k {
    } else {
        lemma_get_absent(s.drop_first(), k);
        if spec_get(s, k) is None {
            assert forall|i: int| 0 <= i < s.len() implies s[i].0 != k by {
                if i > 0 {
                    assert(s.drop_first()[i - 1] == s[i]);
                }
            }
        }
        if forall|i: int| 0 <= i < s.len() ==> s[i].0 != k {
            assert forall|i: int| 0 <= i < s.drop_first().len() implies s.drop_first()[i].0 != k by {
                assert(s.drop_first()[i] == s[i + 1]);
            }
        }
    }
}

/// One step of a front-to-back scan: the entry at `i` either settles the
/// lookup or can be passed over.
pub proof fn lemma_get_skip_step<K, V>(s: Seq<(K, V)>, k: K, i: int)
    requires
        0 <= i < s.len(),
    ensures
        s[i].0 == k ==> spec_get(s.skip(i), k) == Some(s[i].1),
        s[i].0 != k ==> spec_get(s.skip(i), k) == spec_get(s.skip(i + 1), k),
{
    assert(s.skip(i)[0] == s[i]);
    assert(s.skip(i).drop_first() =~= s.skip(i + 1));
}

/// Appending an entry under a fresh key adds exactly that binding.
pub proof fn lemma_get_push<K, V>(s: Seq<(K, V)>, k: K, v: V, k2: K)
    requires
        spec_get(s, k) is None,
    ensures
        spec_get(s.push((k, v)), k) == Some(v),
        k2 != k ==> spec_get(s.push((k, v)), k2) == spec_get(s, k2),
    decreases s.len(),
{
    if s.len() == 0 {
        assert(s.push((k, v)).drop_first() =~= s);
    } else {
        lemma_get_push(s.drop_first(), k, v, k2);
        assert(s.push((k, v))[0] == s[0]);
        assert(s.push((k, v)).drop_first() =~= s.drop_first().push((k, v)));
    }
}

/// Overwriting the entry that carries `k` replaces exactly that binding.
pub proof fn lemma_get_update<K, V>(s: Seq<(K, V)>, i: int, k: K, v: V, k2: K)
    requires
        unique_keys(s),
        0 <= i < s.len(),
        s[i].0 == k,
    ensures
        spec_get(s.update(i, (k, v)), k) == Some(v),
        k2 != k ==> spec_get(s.update(i, (k, v)), k2) == spec_get(s, k2),
    decreases s.len(),
{
    if i == 0 {
        assert(s.update(0, (k, v))[0] == (k, v));
        assert(s.update(0, (k, v)).drop_first() =~= s.drop_first());
    } else {
        assert(s[0].0 != s[i].0);
        assert(s.update(i, (k, v))[0] == s[0]);
        assert(s.update(i, (k, v)).drop_first() =~= s.drop_first().update(i - 1, (k, v)));
        assert forall|a: int, b: int| 0 <= a < b < s.drop_first().len() implies s.drop_first()[a].0
            != s.drop_first()[b].0 by {
            assert(s.drop_first()[a] == s[a + 1]);
            assert(s.drop_first()[b] == s[b + 1]);
        }
        assert(s.drop_first()[i - 1] == s[i]);
        lemma_get_update(s.drop_first(), i - 1, k, v, k2);
    }
}

/// Appending an entry under a fresh key keeps the keys unique.
pub proof fn lemma_unique_push<K, V>(s: Seq<(K, V)>, k: K, v: V)
    requires
        unique_keys(s),
        spec_get(s, k) is None,
    ensures
        unique_keys(s.push((k, v))),
{
    lemma_get_absent(s, k);
    assert forall|i: int, j: int| 0 <= i < j < s.push((k, v)).len() implies s.push(
        (k, v),
    )[i].0 != s.push((k, v))[j].0 by {
        if j < s.len() {
            assert(s.push((k, v))[i] == s[i]);
            assert(s.push((k, v))[j] == s[j]);
        } else {
            assert(s.push((k, v))[i] == s[i]);
            assert(s.push((k, v))[j] == (k, v));
        }
    }
}

/// Overwriting an entry in place keeps the keys unique.
pub proof fn lemma_unique_update<K, V>(s: Seq<(K, V)>, i: int, k: K, v: V)
    requires
        unique_keys(s),
        0 <= i < s.len(),
        s[i].0 == k,
    ensures
        unique_keys(s.update(i, (k, v))),
{
    assert forall|a: int, b: int| 0 <= a < b < s.update(i, (k, v)).len() implies s.update(
        i,
        (k, v),
    )[a].0 != s.update(i, (k, v))[b].0 by {
        assert(s.update(i, (k, v))[a].0 == s[a].0);
        assert(s.update(i, (k, v))[b].0 == s[b].0);
    }
}

/// Finds the entry of `v` keyed by the address `k`, scanning from the front.
pub fn find_by_address<V>(v: &Vec<(Address, V)>, k: Address) -> (r: Option<usize>)
    ensures
        match r {
            Some(i) => i < v@.len() && v@[i as int].0 == k && spec_get(v@, k) == Some(
                v@[i as int].1,
            ),
            None => spec_get(v@, k) is None,
        },
{
    let n = v.len();
    let mut i: usize = 0;
    proof {
        assert(v@.skip(0) =~= v@);
    }
    while i < n
        invariant
            i <= n,
            n == v@.len(),
            spec_get(v@, k) == spec_get(v@.skip(i as int), k),
        decreases n - i,
    {
        proof {
            lemma_get_skip_step(v@, k, i as int);
        }
        if v[i].0 == k {
            return Some(i);
        }
        i = i + 1;
    }
    proof {
        assert(v@.skip(n as int).len() == 0);
    }
    None
}

/// Finds the entry of `v` keyed by the digest `k`, scanning from the front.
pub fn find_by_b256<V>(v: &Vec<(B256, V)>, k: B256) -> (r: Option<usize>)
    ensures
        match r {
            Some(i) => i < v@.len() && v@[i as int].0 == k && spec_get(v@, k) == Some(
                v@[i as int].1,
            ),
            None => spec_get(v@, k) is None,
        },
{
    let n = v.len();
    let mut i: usize = 0;
    proof {
        assert(v@.skip(0) =~= v@);
    }
    while i < n
        invariant
            i <= n,
            n == v@.len(),
            spec_get(v@, k) == spec_get(v@.skip(i as int), k),
        decreases n - i,
    {
        proof {
            lemma_get_skip_step(v@, k, i as int);
        }
        if v[i].0 == k {
            return Some(i);
        }
        i = i + 1;
    }
    proof {
        assert(v@.skip(n as int).len() == 0);
    }
    None
}

/// Finds the entry of `v` keyed by the number `k`, scanning from the front.
pub fn find_by_u64<V>(v: &Vec<(u64, V)>, k: u64) -> (r: Option<usize>)
    ensures
        match r {
            Some(i) => i < v@.len() && v@[i as int].0 == k && spec_get(v@, k) == Some(
                v@[i as int].1,
            ),
            None => spec_get(v@, k) is None,
        },
{
    let n = v.len();
    let mut i: usize = 0;
    proof {
        assert(v@.skip(0) =~= v@);
    }
    while i < n
        invariant
            i <= n,
            n == v@.len(),
            spec_get(v@, k) == spec_get(v@.skip(i as int), k),
        decreases n - i,
    {
        proof {
            lemma_get_skip_step(v@, k, i as int);
        }
        if v[i].0 == k {
            return Some(i);
        }
        i = i + 1;
    }
    proof {
        assert(v@.skip(n as int).len() == 0);
    }
    None
}

} // verus!
