//! Small name-keyed tables kept as vectors of `(name, value)` pairs, in insertion order.
//! A name is looked up at its first occurrence.

use vstd::prelude::*;

verus! {

/// The value stored under `key`: that of its first occurrence, if any.
pub open spec fn value_of<V>(s: Seq<(String, V)>, key: Seq<char>) -> Option<V>
    decreases s.len(),
{
    if s.len() == 0 {
        None
    } else if s[0].0@ == key {
        Some(s[0].1)
    } else {
        value_of(s.drop_first(), key)
    }
}

/// `i` is the first position holding `key`.
pub open spec fn first_at<V>(s: Seq<(String, V)>, i: int, key: Seq<char>) -> bool {
    &&& 0 <= i < s.len()
    &&& s[i].0@ == key
    &&& forall|j: int| 0 <= j < i ==> (#[trigger] s[j]).0@ != key
}

pub proof fn lemma_value_at_first<V>(s: Seq<(String, V)>, i: int, key: Seq<char>)
    requires
        first_at(s, i, key),
    ensures
        value_of(s, key) == Some(s[i].1),
    decreases i,
{
    if i > 0 {
        assert(s[0].0@ != key);
        assert forall|j: int| 0 <= j < i - 1 implies (#[trigger] s.drop_first()[j]).0@ != key by {
            assert(s.drop_first()[j] == s[j + 1]);
        }
        lemma_value_at_first(s.drop_first(), i - 1, key);
    }
}

pub proof fn lemma_value_absent<V>(s: Seq<(String, V)>, key: Seq<char>)
    requires
        forall|j: int| 0 <= j < s.len() ==> (#[trigger] s[j]).0@ != key,
    ensures
        value_of(s, key) is None,
    decreases s.len(),
{
    if s.len() > 0 {
        assert(s[0].0@ != key);
        assert forall|j: int| 0 <= j < s.len() - 1 implies (#[trigger] s.drop_first()[j]).0@ != key by {
            assert(s.drop_first()[j] == s[j + 1]);
        }
        lemma_value_absent(s.drop_first(), key);
    }
}

/// Replacing the value at the first position of a key changes that key's value only.
pub proof fn lemma_value_update<V>(s: Seq<(String, V)>, i: int, p: (String, V), k2: Seq<char>)
    requires
        first_at(s, i, p.0@),
    ensures
        value_of(s.update(i, p), k2) == (if k2 == p.0@ { Some(p.1) } else { value_of(s, k2) }),
    decreases i,
{
    let s2 = s.update(i, p);
    if i == 0 {
        assert(s2.drop_first() =~= s.drop_first());
    } else {
        assert(s[0].0@ != p.0@);
        assert(s2[0] == s[0]);
        assert(s2.drop_first() =~= s.drop_first().update(i - 1, p));
        assert forall|j: int| 0 <= j < i - 1 implies (#[trigger] s.drop_first()[j]).0@ != p.0@ by {
            assert(s.drop_first()[j] == s[j + 1]);
        }
        lemma_value_update(s.drop_first(), i - 1, p, k2);
    }
}

/// Appending a pair gives its key a value only if it had none.
pub proof fn lemma_value_push<V>(s: Seq<(String, V)>, p: (String, V), k2: Seq<char>)
    ensures
        value_of(s.push(p), k2) == (match value_of(s, k2) {
            Some(v) => Some(v),
            None => if p.0@ == k2 { Some(p.1) } else { None },
        }),
    decreases s.len(),
{
    let s2 = s.push(p);
    if s.len() > 0 {
        assert(s2[0] == s[0]);
        assert(s2.drop_first() =~= s.drop_first().push(p));
        lemma_value_push(s.drop_first(), p, k2);
    } else {
        assert(s2[0] == p);
        assert(s2.drop_first() =~= Seq::<(String, V)>::empty());
        assert(value_of(s2.drop_first(), k2) is None);
        assert(value_of(s, k2) is None);
    }
}

/// Removing the first pair of a key leaves the other keys' values unchanged.
pub proof fn lemma_value_remove<V>(s: Seq<(String, V)>, i: int, key: Seq<char>, k2: Seq<char>)
    requires
        first_at(s, i, key),
        k2 != key,
    ensures
        value_of(s.remove(i), k2) == value_of(s, k2),
    decreases i,
{
    let s2 = s.remove(i);
    if i == 0 {
        assert(s2 =~= s.drop_first());
    } else {
        assert(s2[0] == s[0]);
        assert(s2.drop_first() =~= s.drop_first().remove(i - 1));
        assert forall|j: int| 0 <= j < i - 1 implies (#[trigger] s.drop_first()[j]).0@ != key by {
            assert(s.drop_first()[j] == s[j + 1]);
        }
        lemma_value_remove(s.drop_first(), i - 1, key, k2);
    }
}

/// The keys of the pairs are pairwise distinct.
pub open spec fn distinct_keys<V>(s: Seq<(String, V)>) -> bool {
    forall|a: int, b: int| 0 <= a < s.len() && 0 <= b < s.len() && a != b ==> (#[trigger] s[a]).0@ != (#[trigger] s[b]).0@
}

/// The two tables hold the same keys at the same positions.
pub open spec fn same_keys<V>(a: Seq<(String, V)>, b: Seq<(String, V)>) -> bool {
    &&& a.len() == b.len()
    &&& forall|k: int| 0 <= k < a.len() ==> (#[trigger] a[k]).0@ == b[k].0@
}

/// The first position holding `key`, if any.
pub fn find_key<V>(v: &Vec<(String, V)>, key: &str) -> (r: Option<usize>)
    ensures
        match r {
            Some(i) => first_at(v@, i as int, key@),
            None => forall|j: int| 0 <= j < v@.len() ==> (#[trigger] v@[j]).0@ != key@,
        },
{
    let k = key.to_owned();
    let mut i: usize = 0;
    while i < v.len()
        invariant
            i <= v@.len(),
            k@ == key@,
            forall|j: int| 0 <= j < i ==> (#[trigger] v@[j]).0@ != key@,
        decreases v@.len() - i,
    {
        if v[i].0 == k {
            return Some(i);
        }
        i = i + 1;
    }
    None
}

} // verus!
