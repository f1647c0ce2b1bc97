//! Association-list reasoning shared by the store's tables.
//!
//! Each table is a vector of rows carrying a key; the spec level works on
//! the sequence of key/value pairs, with at most one row per key.

use vstd::prelude::*;

verus! {

/// First value stored under `key`, if any.
pub open spec fn kv_lookup<K, V>(s: Seq<(K, V)>, key: K) -> Option<V>
    decreases s.len(),
{
    if s.len() == 0 {
        Option::None
    } else if s.first().0 == key {
        Option::Some(s.first().1)
    } else {
        kv_lookup(s.drop_first(), key)
    }
}

/// Keys occur at most once.
pub open spec fn kv_unique<K, V>(s: Seq<(K, V)>) -> bool {
    forall|i: int, j: int|
        0 <= i < j < s.len() ==> (#[trigger] s[i]).0 != (#[trigger] s[j]).0
}

/// A hit at index `i`, with no earlier hit, is what the lookup returns.
pub proof fn lemma_kv_lookup_some<K, V>(s: Seq<(K, V)>, key: K, i: int)
    requires
        0 <= i < s.len(),
        s[i].0 == key,
        forall|j: int| 0 <= j < i ==> (#[trigger] s[j]).0 != key,
    ensures
        kv_lookup(s, key) == Option::Some(s[i].1),
    decreases s.len(),
{
    if i > 0 {
        let rest = s.drop_first();
        assert(forall|j: int| 0 <= j < i - 1 ==> (#[trigger] rest[j]).0 != key);
        lemma_kv_lookup_some(rest, key, i - 1);
    }
}

/// When no row has the key, the lookup misses.
pub proof fn lemma_kv_lookup_none<K, V>(s: Seq<(K, V)>, key: K)
    requires
        forall|j: int| 0 <= j < s.len() ==> (#[trigger] s[j]).0 != key,
    ensures
        kv_lookup(s, key) is None,
    decreases s.len(),
{
    if s.len() > 0 {
        lemma_kv_lookup_none(s.drop_first(), key);
    }
}

/// When the lookup misses, no row has the key.
pub proof fn lemma_kv_lookup_none_keys<K, V>(s: Seq<(K, V)>, key: K)
    requires
        kv_lookup(s, key) is None,
    ensures
        forall|j: int| 0 <= j < s.len() ==> (#[trigger] s[j]).0 != key,
    decreases s.len(),
{
    if s.len() > 0 {
        lemma_kv_lookup_none_keys(s.drop_first(), key);
        assert(forall|j: int| 1 <= j < s.len() ==> #[trigger] s[j] == s.drop_first()[j - 1]);
    }
}

/// Appending a row does not change lookups of other keys.
pub proof fn lemma_kv_push_other<K, V>(s: Seq<(K, V)>, row: (K, V), key: K)
    requires
        key != row.0,
    ensures
        kv_lookup(s.push(row), key) == kv_lookup(s, key),
    decreases s.len(),
{
    if s.len() == 0 {
        assert(s.push(row).first() == row);
        assert(s.push(row).drop_first() =~= Seq::<(K, V)>::empty());
        assert(kv_lookup(s.push(row).drop_first(), key) is None);
        assert(kv_lookup(s.push(row), key) is None);
        assert(kv_lookup(s, key) is None);
    } else {
        assert(s.push(row).first() == s.first());
        assert(s.push(row).drop_first() =~= s.drop_first().push(row));
        if s.first().0 == key {
            assert(kv_lookup(s.push(row), key) == Option::Some(s.first().1));
            assert(kv_lookup(s, key) == Option::Some(s.first().1));
        } else {
            lemma_kv_push_other(s.drop_first(), row, key);
            assert(kv_lookup(s.push(row), key) == kv_lookup(s.drop_first().push(row), key));
            assert(kv_lookup(s, key) == kv_lookup(s.drop_first(), key));
        }
    }
}

/// Removing the unique row at index `i` drops its key and leaves every
/// other key's lookup unchanged.
pub proof fn lemma_kv_remove<K, V>(pre: Seq<(K, V)>, post: Seq<(K, V)>, i: int, key: K)
    requires
        0 <= i < pre.len(),
        post == pre.subrange(0, i) + pre.subrange(i + 1, pre.len() as int),
        kv_unique(pre),
    ensures
        key == pre[i].0 ==> kv_lookup(post, key) is None,
        key != pre[i].0 ==> kv_lookup(post, key) == kv_lookup(pre, key),
    decreases pre.len(),
{
    if i == 0 {
        assert(post =~= pre.drop_first());
        if key == pre[0].0 {
            assert forall|j: int| 0 <= j < post.len() implies (#[trigger] post[j]).0 != key by {
                assert(post[j] == pre[j + 1]);
            }
            lemma_kv_lookup_none(post, key);
        }
    } else {
        assert(pre.len() > 1);
        assert(post.len() == pre.len() - 1);
        assert(post.first() == pre.first());
        let pre1 = pre.drop_first();
        let post1 = post.drop_first();
        assert(post1 =~= pre1.subrange(0, i - 1) + pre1.subrange(i, pre1.len() as int));
        assert(kv_unique(pre1)) by {
            assert(forall|j: int| 0 <= j < pre1.len() ==> #[trigger] pre1[j] == pre[j + 1]);
        }
        lemma_kv_remove(pre1, post1, i - 1, key);
        assert(pre1[i - 1] == pre[i]);
        if key == pre.first().0 {
            assert(kv_lookup(post, key) == Option::Some(post.first().1));
            assert(kv_lookup(pre, key) == Option::Some(pre.first().1));
            assert(key != pre[i].0);
        }
    }
}

/// The spec view of a table keyed by one string.
pub open spec fn keyed1<V>(rows: Seq<(String, V)>) -> Seq<(Seq<char>, V)> {
    Seq::new(rows.len(), |i: int| (rows[i].0@, rows[i].1))
}

/// The spec view of a table keyed by a pair of strings.
pub open spec fn keyed2<V>(rows: Seq<((String, String), V)>) -> Seq<((Seq<char>, Seq<char>), V)> {
    Seq::new(rows.len(), |i: int| ((rows[i].0.0@, rows[i].0.1@), rows[i].1))
}

/// Looks a single-string key up.
pub fn get1<'a, V>(rows: &'a Vec<(String, V)>, key: &str) -> (r: Option<&'a V>)
    ensures
        match r {
            Some(v) => kv_lookup(keyed1(rows@), key@) == Option::Some(*v),
            None => kv_lookup(keyed1(rows@), key@) is None,
        },
{
    let n = rows.len();
    let mut i: usize = 0;
    while i < n
        invariant
            0 <= i <= n,
            n == rows@.len(),
            forall|j: int| 0 <= j < i ==> (#[trigger] keyed1(rows@)[j]).0 != key@,
        decreases n - i,
    {
        if crate::refs::str_eq(rows[i].0.as_str(), key) {
            proof {
                lemma_kv_lookup_some(keyed1(rows@), key@, i as int);
            }
            return Some(&rows[i].1);
        }
        i += 1;
    }
    proof {
        lemma_kv_lookup_none(keyed1(rows@), key@);
    }
    None
}

/// Looks a two-string key up.
pub fn get2<'a, V>(rows: &'a Vec<((String, String), V)>, k1: &str, k2: &str) -> (r: Option<
    &'a V,
>)
    ensures
        match r {
            Some(v) => kv_lookup(keyed2(rows@), (k1@, k2@)) == Option::Some(*v),
            None => kv_lookup(keyed2(rows@), (k1@, k2@)) is None,
        },
{
    let n = rows.len();
    let mut i: usize = 0;
    while i < n
        invariant
            0 <= i <= n,
            n == rows@.len(),
            forall|j: int| 0 <= j < i ==> (#[trigger] keyed2(rows@)[j]).0 != (k1@, k2@),
        decreases n - i,
    {
        if crate::refs::str_eq(rows[i].0.0.as_str(), k1) && crate::refs::str_eq(
            rows[i].0.1.as_str(),
            k2,
        ) {
            proof {
                lemma_kv_lookup_some(keyed2(rows@), (k1@, k2@), i as int);
            }
            return Some(&rows[i].1);
        }
        i += 1;
    }
    proof {
        lemma_kv_lookup_none(keyed2(rows@), (k1@, k2@));
    }
    None
}

/// Drops the row with the key, if any; reports whether one was there.
pub fn remove1<V>(rows: &mut Vec<(String, V)>, key: &str) -> (removed: bool)
    requires
        kv_unique(keyed1(old(rows)@)),
    ensures
        kv_unique(keyed1(final(rows)@)),
        kv_lookup(keyed1(final(rows)@), key@) is None,
        forall|k: Seq<char>|
            k != key@ ==> #[trigger] kv_lookup(keyed1(final(rows)@), k) == kv_lookup(
                keyed1(old(rows)@),
                k,
            ),
        removed == (kv_lookup(keyed1(old(rows)@), key@) is Some),
        !removed ==> final(rows)@ == old(rows)@,
{
    let n = rows.len();
    let mut i: usize = 0;
    while i < n
        invariant
            0 <= i <= n,
            n == rows@.len(),
            rows@ == old(rows)@,
            kv_unique(keyed1(old(rows)@)),
            forall|j: int| 0 <= j < i ==> (#[trigger] keyed1(rows@)[j]).0 != key@,
        decreases n - i,
    {
        if crate::refs::str_eq(rows[i].0.as_str(), key) {
            proof {
                lemma_kv_lookup_some(keyed1(rows@), key@, i as int);
            }
            let ghost pre = keyed1(rows@);
            rows.remove(i);
            proof {
                let post = keyed1(rows@);
                assert(post =~= pre.subrange(0, i as int) + pre.subrange(
                    i as int + 1,
                    pre.len() as int,
                ));
                assert forall|k: Seq<char>| #[trigger] kv_lookup(post, k) == (if k == key@ {
                    Option::<V>::None
                } else {
                    kv_lookup(pre, k)
                }) by {
                    lemma_kv_remove(pre, post, i as int, k);
                }
                assert forall|a: int, b: int| 0 <= a < b < post.len() implies (
                #[trigger] post[a]).0 != (#[trigger] post[b]).0 by {
                    let a0 = if a < i as int {
                        a
                    } else {
                        a + 1
                    };
                    let b0 = if b < i as int {
                        b
                    } else {
                        b + 1
                    };
                    assert(post[a] == pre[a0]);
                    assert(post[b] == pre[b0]);
                }
            }
            return true;
        }
        i += 1;
    }
    proof {
        lemma_kv_lookup_none(keyed1(rows@), key@);
    }
    false
}

/// Drops the row with the pair key, if any; reports whether one was there.
pub fn remove2<V>(rows: &mut Vec<((String, String), V)>, k1: &str, k2: &str) -> (removed: bool)
    requires
        kv_unique(keyed2(old(rows)@)),
    ensures
        kv_unique(keyed2(final(rows)@)),
        kv_lookup(keyed2(final(rows)@), (k1@, k2@)) is None,
        forall|k: (Seq<char>, Seq<char>)|
            k != (k1@, k2@) ==> #[trigger] kv_lookup(keyed2(final(rows)@), k) == kv_lookup(
                keyed2(old(rows)@),
                k,
            ),
        removed == (kv_lookup(keyed2(old(rows)@), (k1@, k2@)) is Some),
        !removed ==> final(rows)@ == old(rows)@,
{
    let n = rows.len();
    let mut i: usize = 0;
    while i < n
        invariant
            0 <= i <= n,
            n == rows@.len(),
            rows@ == old(rows)@,
            kv_unique(keyed2(old(rows)@)),
            forall|j: int| 0 <= j < i ==> (#[trigger] keyed2(rows@)[j]).0 != (k1@, k2@),
        decreases n - i,
    {
        if crate::refs::str_eq(rows[i].0.0.as_str(), k1) && crate::refs::str_eq(
            rows[i].0.1.as_str(),
            k2,
        ) {
            proof {
                lemma_kv_lookup_some(keyed2(rows@), (k1@, k2@), i as int);
            }
            let ghost pre = keyed2(rows@);
            rows.remove(i);
            proof {
                let post = keyed2(rows@);
                assert(post =~= pre.subrange(0, i as int) + pre.subrange(
                    i as int + 1,
                    pre.len() as int,
                ));
                assert forall|k: (Seq<char>, Seq<char>)| #[trigger] kv_lookup(post, k) == (if k
                    == (k1@, k2@) {
                    Option::<V>::None
                } else {
                    kv_lookup(pre, k)
                }) by {
                    lemma_kv_remove(pre, post, i as int, k);
                }
                assert forall|a: int, b: int| 0 <= a < b < post.len() implies (
                #[trigger] post[a]).0 != (#[trigger] post[b]).0 by {
                    let a0 = if a < i as int {
                        a
                    } else {
                        a + 1
                    };
                    let b0 = if b < i as int {
                        b
                    } else {
                        b + 1
                    };
                    assert(post[a] == pre[a0]);
                    assert(post[b] == pre[b0]);
                }
            }
            return true;
        }
        i += 1;
    }
    proof {
        lemma_kv_lookup_none(keyed2(rows@), (k1@, k2@));
    }
    false
}

/// Stores a value under the key, replacing any previous row.
pub fn upsert1<V>(rows: &mut Vec<(String, V)>, key: String, value: V)
    requires
        kv_unique(keyed1(old(rows)@)),
    ensures
        kv_unique(keyed1(final(rows)@)),
        kv_lookup(keyed1(final(rows)@), key@) == Option::Some(value),
        forall|k: Seq<char>|
            k != key@ ==> #[trigger] kv_lookup(keyed1(final(rows)@), k) == kv_lookup(
                keyed1(old(rows)@),
                k,
            ),
{
    remove1(rows, key.as_str());
    let ghost mid = keyed1(rows@);
    proof {
        lemma_kv_lookup_none_keys(mid, key@);
    }
    rows.push((key, value));
    proof {
        let post = keyed1(rows@);
        let k = post.len() - 1;
        assert(post =~= mid.push(post[k]));
        assert(post[k].0 == key@ && post[k].1 == value);
        assert forall|j: int| 0 <= j < k implies (#[trigger] post[j]).0 != key@ by {
            assert(post[j] == mid[j]);
        }
        lemma_kv_lookup_some(post, key@, k);
        assert forall|kk: Seq<char>| kk != key@ implies #[trigger] kv_lookup(post, kk)
            == kv_lookup(mid, kk) by {
            lemma_kv_push_other(mid, post[k], kk);
        }
    }
}

/// Stores a value under the pair key, replacing any previous row.
pub fn upsert2<V>(rows: &mut Vec<((String, String), V)>, k1: String, k2: String, value: V)
    requires
        kv_unique(keyed2(old(rows)@)),
    ensures
        kv_unique(keyed2(final(rows)@)),
        kv_lookup(keyed2(final(rows)@), (k1@, k2@)) == Option::Some(value),
        forall|k: (Seq<char>, Seq<char>)|
            k != (k1@, k2@) ==> #[trigger] kv_lookup(keyed2(final(rows)@), k) == kv_lookup(
                keyed2(old(rows)@),
                k,
            ),
{
    remove2(rows, k1.as_str(), k2.as_str());
    let ghost mid = keyed2(rows@);
    proof {
        lemma_kv_lookup_none_keys(mid, (k1@, k2@));
    }
    rows.push(((k1, k2), value));
    proof {
        let post = keyed2(rows@);
        let k = post.len() - 1;
        assert(post =~= mid.push(post[k]));
        assert(post[k].0 == (k1@, k2@) && post[k].1 == value);
        assert forall|j: int| 0 <= j < k implies (#[trigger] post[j]).0 != (k1@, k2@) by {
            assert(post[j] == mid[j]);
        }
        lemma_kv_lookup_some(post, (k1@, k2@), k);
        assert forall|kk: (Seq<char>, Seq<char>)| kk != (k1@, k2@) implies #[trigger] kv_lookup(
            post,
            kk,
        ) == kv_lookup(mid, kk) by {
            lemma_kv_push_other(mid, post[k], kk);
        }
    }
}

} // verus!
