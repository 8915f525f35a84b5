//! String-keyed association vectors with unique keys, viewed as
//! mathematical maps. These back the shared state's price and
//! module-activity tables.

use vstd::prelude::*;
use crate::strutil::str_eq;

verus! {

/// The first index whose key is `key`, or the length if absent.
pub open spec fn spec_find<V>(s: Seq<(String, V)>, key: Seq<char>) -> int
    decreases s.len(),
{
    if s.len() == 0 {
        0
    } else if s[0].0@ == key {
        0
    } else {
        1 + spec_find(s.skip(1), key)
    }
}

/// Whether some entry carries `key`.
pub open spec fn spec_contains<V>(s: Seq<(String, V)>, key: Seq<char>) -> bool {
    spec_find(s, key) < s.len()
}

/// No two entries share a key.
pub open spec fn unique_keys<V>(s: Seq<(String, V)>) -> bool {
    forall|i: int, j: int| 0 <= i < j < s.len() ==> (#[trigger] s[i].0@) != (#[trigger] s[j].0@)
}

/// The map an association vector denotes.
pub open spec fn assoc_view<V>(s: Seq<(String, V)>) -> Map<Seq<char>, V> {
    Map::new(|k: Seq<char>| spec_contains(s, k), |k: Seq<char>| s[spec_find(s, k)].1)
}

pub proof fn lemma_find_props<V>(s: Seq<(String, V)>, key: Seq<char>)
    ensures
        0 <= spec_find(s, key) <= s.len(),
        spec_find(s, key) < s.len() ==> s[spec_find(s, key)].0@ == key,
        forall|j: int| 0 <= j < spec_find(s, key) ==> (#[trigger] s[j].0@) != key,
    decreases s.len(),
{
    if s.len() > 0 && s[0].0@ != key {
        lemma_find_props(s.skip(1), key);
        assert forall|j: int| 0 <= j < spec_find(s, key) implies (#[trigger] s[j].0@) != key by {
            if j > 0 {
                assert(s.skip(1)[j - 1] == s[j]);
            }
        }
    }
}

/// The first occurrence characterizes `spec_find`.
pub proof fn lemma_find_at<V>(s: Seq<(String, V)>, key: Seq<char>, i: int)
    requires
        0 <= i < s.len(),
        s[i].0@ == key,
        forall|j: int| 0 <= j < i ==> (#[trigger] s[j].0@) != key,
    ensures
        spec_find(s, key) == i,
{
    lemma_find_props(s, key);
    let f = spec_find(s, key);
    if f < i {
        assert(s[f].0@ != key);
    }
    if f > i {
        assert(s[i].0@ != key);
    }
}

/// The index of the entry keyed `key`, or the length if absent.
pub fn assoc_find<V>(v: &Vec<(String, V)>, key: &str) -> (r: usize)
    ensures
        r as int == spec_find(v@, key@),
{
    let n = v.len();
    let mut i: usize = 0;
    while i < n
        invariant
            n == v@.len(),
            i <= n,
            forall|j: int| 0 <= j < i ==> (#[trigger] v@[j].0@) != key@,
        decreases n - i,
    {
        if str_eq(v[i].0.as_str(), key) {
            proof {
                lemma_find_at(v@, key@, i as int);
            }
            return i;
        }
        i = i + 1;
    }
    proof {
        lemma_find_props(v@, key@);
        if spec_find(v@, key@) < v@.len() {
            assert(v@[spec_find(v@, key@)].0@ != key@);
        }
    }
    n
}

/// A borrow of the value keyed `key`, if present.
pub fn assoc_get<'a, V>(v: &'a Vec<(String, V)>, key: &str) -> (r: Option<&'a V>)
    ensures
        match r {
            Some(x) => spec_contains(v@, key@) && *x == assoc_view(v@)[key@],
            None => !spec_contains(v@, key@),
        },
{
    let i = assoc_find(v, key);
    if i < v.len() {
        Some(&v[i].1)
    } else {
        None
    }
}

/// Replaces the value keyed `key`, or appends the pair if the key is
/// new; the denoted map gains exactly this binding.
pub fn assoc_upsert<V>(v: &mut Vec<(String, V)>, key: String, val: V)
    requires
        unique_keys(old(v)@),
    ensures
        unique_keys(final(v)@),
        assoc_view(final(v)@) == assoc_view(old(v)@).insert(key@, val),
        old(v)@.len() <= final(v)@.len() <= old(v)@.len() + 1,
{
    let ghost s = v@;
    let ghost k = key@;
    proof {
        lemma_find_props(s, k);
    }
    let i = assoc_find(v, key.as_str());
    if i < v.len() {
        v.remove(i);
        v.insert(i, (key, val));
        proof {
            let s2 = v@;
            assert(s2 =~= s.update(i as int, s2[i as int]));
            assert(s2[i as int].0@ == k);
            assert forall|a: int, b: int| 0 <= a < b < s2.len() implies (#[trigger] s2[a].0@)
                != (#[trigger] s2[b].0@) by {
                assert(s[a].0@ == s2[a].0@ && s[b].0@ == s2[b].0@);
            }
            lemma_upsert_view(s, s2, k, i as int);
        }
    } else {
        v.push((key, val));
        proof {
            let s2 = v@;
            assert(!spec_contains(s, k));
            assert forall|a: int, b: int| 0 <= a < b < s2.len() implies (#[trigger] s2[a].0@)
                != (#[trigger] s2[b].0@) by {
                if b == s.len() {
                    assert(s[a].0@ != k);
                }
            }
            lemma_upsert_view(s, s2, k, s.len() as int);
        }
    }
}

/// After writing the pair for `k` at position `i` (the other entries'
/// keys unchanged), the denoted map is the old map with `k` bound.
proof fn lemma_upsert_view<V>(s: Seq<(String, V)>, s2: Seq<(String, V)>, k: Seq<char>, i: int)
    requires
        0 <= i < s2.len(),
        s2.len() == s.len() || (s2.len() == s.len() + 1 && i == s.len()),
        s2[i].0@ == k,
        forall|j: int| 0 <= j < s2.len() && j != i ==> #[trigger] s2[j] == s[j],
        forall|j: int| 0 <= j < i ==> (#[trigger] s[j].0@) != k,
        i < s.len() ==> s[i].0@ == k,
    ensures
        assoc_view(s2) == assoc_view(s).insert(k, s2[i].1),
{
    lemma_find_at(s2, k, i);
    assert forall|q: Seq<char>| q != k implies (spec_contains(s2, q) <==> spec_contains(s, q))
        && (spec_contains(s, q) ==> s2[spec_find(s2, q)] == s[spec_find(s, q)]) by {
        lemma_find_props(s, q);
        lemma_find_props(s2, q);
        let f = spec_find(s, q);
        let f2 = spec_find(s2, q);
        if f < s.len() {
            if f == i {
                assert(false);
            }
            assert(s2[f] == s[f]);
            assert forall|j: int| 0 <= j < f implies (#[trigger] s2[j].0@) != q by {
                if j != i {
                    assert(s2[j] == s[j]);
                }
            }
            lemma_find_at(s2, q, f);
        } else {
            if f2 < s2.len() {
                assert(s2[f2].0@ == q);
                if f2 != i {
                    assert(s[f2].0@ == q);
                    assert(s[f2].0@ != q);
                }
            }
        }
    }
    assert(assoc_view(s2) =~= assoc_view(s).insert(k, s2[i].1));
}

} // verus!
