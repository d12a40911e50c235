//! Lists of named entries (headers, parameters, object members), read and
//! written as maps keyed by text: the first entry with a key is the one that
//! counts.

use vstd::prelude::*;
use crate::text::text_eq;

verus! {

/// The content of an entry list: each key's text with its value's content.
pub open spec fn entries_view<V: View>(s: Seq<(String, V)>) -> Seq<(Seq<char>, V::V)> {
    Seq::new(s.len(), |i: int| (s[i].0@, s[i].1@))
}

/// `i` is the position of the first entry named `k`.
pub open spec fn first_key_index<X>(s: Seq<(Seq<char>, X)>, k: Seq<char>, i: int) -> bool {
    &&& 0 <= i < s.len()
    &&& s[i].0 == k
    &&& forall|j: int| 0 <= j < i ==> s[j].0 != k
}

/// Some entry is named `k`.
pub open spec fn has_key<X>(s: Seq<(Seq<char>, X)>, k: Seq<char>) -> bool {
    exists|i: int| 0 <= i < s.len() && s[i].0 == k
}

/// The position of the first entry named `k` (meaningful when there is one).
pub open spec fn key_position<X>(s: Seq<(Seq<char>, X)>, k: Seq<char>) -> int {
    choose|i: int| first_key_index(s, k, i)
}

/// The value of the first entry named `k`, if any.
pub open spec fn lookup<X>(s: Seq<(Seq<char>, X)>, k: Seq<char>) -> Option<X> {
    if has_key(s, k) {
        Some(s[key_position(s, k)].1)
    } else {
        None
    }
}

/// `s` with the value of its first entry named `k` replaced by `x`, or with
/// `(k, x)` added at the end when no entry is named `k`.
pub open spec fn insert_entry<X>(s: Seq<(Seq<char>, X)>, k: Seq<char>, x: X) -> Seq<(Seq<char>, X)> {
    if has_key(s, k) {
        s.update(key_position(s, k), (k, x))
    } else {
        s.push((k, x))
    }
}

/// `s` without any entry named `k`, the others kept in order.
pub open spec fn remove_key<X>(s: Seq<(Seq<char>, X)>, k: Seq<char>) -> Seq<(Seq<char>, X)>
    decreases s.len(),
{
    if s.len() == 0 {
        s
    } else {
        let rest = remove_key(s.drop_last(), k);
        if s.last().0 == k {
            rest
        } else {
            rest.push(s.last())
        }
    }
}

/// No two entries share a key (the list reads as a map with no shadowed
/// entries).
pub open spec fn unique_keys<X>(s: Seq<(Seq<char>, X)>) -> bool {
    forall|i: int, j: int| 0 <= i < s.len() && 0 <= j < s.len() && i != j ==> s[i].0 != s[j].0
}

/// Writing under a key keeps keys unique.
pub proof fn lemma_insert_keeps_unique<X>(s: Seq<(Seq<char>, X)>, k: Seq<char>, x: X)
    requires
        unique_keys(s),
    ensures
        unique_keys(insert_entry(s, k, x)),
{
    let t = insert_entry(s, k, x);
    if has_key(s, k) {
        lemma_first_key_exists(s, k);
        let p = key_position(s, k);
        assert forall|i: int, j: int| 0 <= i < t.len() && 0 <= j < t.len() && i != j implies t[i].0 != t[j].0 by {
            assert(t[i].0 == s[i].0);
            assert(t[j].0 == s[j].0);
        }
    } else {
        assert forall|i: int, j: int| 0 <= i < t.len() && 0 <= j < t.len() && i != j implies t[i].0 != t[j].0 by {
            if i < s.len() && j < s.len() {
                assert(t[i] == s[i] && t[j] == s[j]);
            } else if i == s.len() {
                assert(t[j] == s[j]);
            } else {
                assert(t[i] == s[i]);
            }
        }
    }
}

/// Removing a key keeps keys unique, and adds no key.
pub proof fn lemma_remove_keeps_unique<X>(s: Seq<(Seq<char>, X)>, k: Seq<char>)
    ensures
        unique_keys(s) ==> unique_keys(remove_key(s, k)),
        forall|k2: Seq<char>| has_key(remove_key(s, k), k2) ==> has_key(s, k2),
    decreases s.len(),
{
    if s.len() > 0 {
        let prev = s.drop_last();
        lemma_remove_keeps_unique(prev, k);
        let r = remove_key(prev, k);
        assert forall|k2: Seq<char>| has_key(prev, k2) implies has_key(s, k2) by {
            let i = choose|i: int| 0 <= i < prev.len() && prev[i].0 == k2;
            assert(s[i] == prev[i]);
        }
        if s.last().0 != k {
            let t = r.push(s.last());
            assert forall|k2: Seq<char>| has_key(t, k2) implies has_key(s, k2) by {
                let i = choose|i: int| 0 <= i < t.len() && t[i].0 == k2;
                if i < r.len() {
                    assert(has_key(r, k2));
                } else {
                    assert(s[s.len() - 1].0 == k2);
                }
            }
            if unique_keys(s) {
                assert(unique_keys(prev)) by {
                    assert forall|i: int, j: int| 0 <= i < prev.len() && 0 <= j < prev.len() && i != j implies prev[i].0 != prev[j].0 by {
                        assert(prev[i] == s[i] && prev[j] == s[j]);
                    }
                }
                assert(!has_key(r, s.last().0)) by {
                    if has_key(r, s.last().0) {
                        assert(has_key(prev, s.last().0));
                        let i = choose|i: int| 0 <= i < prev.len() && prev[i].0 == s.last().0;
                        assert(s[i] == prev[i]);
                    }
                }
                assert forall|i: int, j: int| 0 <= i < t.len() && 0 <= j < t.len() && i != j implies t[i].0 != t[j].0 by {
                    if i < r.len() && j < r.len() {
                    } else if i == r.len() {
                        assert(t[j] == r[j]);
                        assert(!(r[j].0 == s.last().0));
                    } else {
                        assert(t[i] == r[i]);
                        assert(!(r[i].0 == s.last().0));
                    }
                }
            }
        } else {
            if unique_keys(s) {
                assert forall|i: int, j: int| 0 <= i < prev.len() && 0 <= j < prev.len() && i != j implies prev[i].0 != prev[j].0 by {
                    assert(prev[i] == s[i] && prev[j] == s[j]);
                }
            }
        }
    }
}

/// When some entry is named `k`, there is a first one.
pub proof fn lemma_first_key_exists<X>(s: Seq<(Seq<char>, X)>, k: Seq<char>)
    requires
        has_key(s, k),
    ensures
        first_key_index(s, k, key_position(s, k)),
    decreases s.len(),
{
    let t = s.drop_last();
    if has_key(t, k) {
        lemma_first_key_exists(t, k);
        let f = key_position(t, k);
        assert forall|j: int| 0 <= j < f implies s[j].0 != k by {
            assert(t[j] == s[j]);
        }
        assert(s[f] == t[f]);
        assert(first_key_index(s, k, f));
    } else {
        let last = s.len() - 1;
        assert forall|j: int| 0 <= j < last implies s[j].0 != k by {
            assert(t[j] == s[j]);
        }
        assert(first_key_index(s, k, last));
    }
}

/// The first entry named `k` is the one at `i`, when `i` is its position.
pub proof fn lemma_first_key_unique<X>(s: Seq<(Seq<char>, X)>, k: Seq<char>, i: int)
    requires
        first_key_index(s, k, i),
    ensures
        has_key(s, k),
        key_position(s, k) == i,
        lookup(s, k) == Some(s[i].1),
{
    assert(has_key(s, k));
    let p = key_position(s, k);
    assert(first_key_index(s, k, p));
    assert(p == i) by {
        if p < i {
            assert(s[p].0 != k);
        } else if p > i {
            assert(s[i].0 != k);
        }
    }
}

/// A value written under a key is what a lookup of that key reads back.
pub proof fn lemma_lookup_insert_same<X>(s: Seq<(Seq<char>, X)>, k: Seq<char>, x: X)
    ensures
        lookup(insert_entry(s, k, x), k) == Some(x),
{
    let t = insert_entry(s, k, x);
    if has_key(s, k) {
        lemma_first_key_exists(s, k);
        let p = key_position(s, k);
        assert(first_key_index(t, k, p));
        lemma_first_key_unique(t, k, p);
    } else {
        assert(first_key_index(t, k, s.len() as int));
        lemma_first_key_unique(t, k, s.len() as int);
    }
}

/// Writing under one key leaves what every other key reads unchanged.
pub proof fn lemma_lookup_insert_other<X>(s: Seq<(Seq<char>, X)>, k: Seq<char>, x: X, k2: Seq<char>)
    requires
        k2 != k,
    ensures
        lookup(insert_entry(s, k, x), k2) == lookup(s, k2),
{
    let t = insert_entry(s, k, x);
    if has_key(s, k) {
        lemma_first_key_exists(s, k);
    }
    if has_key(s, k2) {
        lemma_first_key_exists(s, k2);
        let p2 = key_position(s, k2);
        assert(first_key_index(t, k2, p2));
        lemma_first_key_unique(t, k2, p2);
    } else {
        assert(!has_key(t, k2)) by {
            if has_key(t, k2) {
                let i = choose|i: int| 0 <= i < t.len() && t[i].0 == k2;
                if i < s.len() {
                    assert(s[i].0 == k2);
                }
            }
        }
    }
}

/// Writing under a key keeps every key present, and adds that key.
pub proof fn lemma_insert_has_key<X>(s: Seq<(Seq<char>, X)>, k: Seq<char>, x: X, k2: Seq<char>)
    ensures
        has_key(insert_entry(s, k, x), k),
        has_key(s, k2) ==> has_key(insert_entry(s, k, x), k2),
{
    let t = insert_entry(s, k, x);
    if has_key(s, k) {
        lemma_first_key_exists(s, k);
        let p = key_position(s, k);
        assert(t[p].0 == k);
        if has_key(s, k2) {
            let i = choose|i: int| 0 <= i < s.len() && s[i].0 == k2;
            assert(t[i].0 == k2);
        }
    } else {
        assert(t[s.len() as int].0 == k);
        if has_key(s, k2) {
            let i = choose|i: int| 0 <= i < s.len() && s[i].0 == k2;
            assert(t[i].0 == k2);
        }
    }
}

/// After removing a key, no entry is named by it.
pub proof fn lemma_remove_key_absent<X>(s: Seq<(Seq<char>, X)>, k: Seq<char>)
    ensures
        !has_key(remove_key(s, k), k),
    decreases s.len(),
{
    if s.len() > 0 {
        lemma_remove_key_absent(s.drop_last(), k);
        let r = remove_key(s.drop_last(), k);
        if s.last().0 != k {
            assert(!has_key(r.push(s.last()), k)) by {
                if has_key(r.push(s.last()), k) {
                    let i = choose|i: int| 0 <= i < r.len() + 1 && r.push(s.last())[i].0 == k;
                    if i < r.len() {
                        assert(r[i].0 == k);
                    }
                }
            }
        }
    }
}

/// The position of the first entry named by `key`, if any.
pub fn find_entry<V: View>(entries: &Vec<(String, V)>, key: &str) -> (r: Option<usize>)
    ensures
        match r {
            Some(i) => first_key_index(entries_view(entries@), key@, i as int),
            None => !has_key(entries_view(entries@), key@),
        },
{
    let ghost s = entries_view(entries@);
    let mut i: usize = 0;
    while i < entries.len()
        invariant
            s == entries_view(entries@),
            i <= entries@.len(),
            forall|j: int| 0 <= j < i ==> s[j].0 != key@,
        decreases entries@.len() - i,
    {
        if text_eq(entries[i].0.as_str(), key) {
            return Some(i);
        }
        i = i + 1;
    }
    None
}

/// Writes `value` under `key`: replaces the value of the first entry named
/// `key`, or adds an entry at the end.
pub fn insert_entry_value<V: View>(entries: &mut Vec<(String, V)>, key: &str, value: V)
    ensures
        entries_view(final(entries)@) == insert_entry(entries_view(old(entries)@), key@, value@),
{
    let ghost s = entries_view(entries@);
    match find_entry(entries, key) {
        Some(i) => {
            proof {
                lemma_first_key_unique(s, key@, i as int);
            }
            let name = entries[i].0.clone();
            entries.set(i, (name, value));
            assert(entries_view(entries@) =~= s.update(i as int, (key@, value@)));
        },
        None => {
            entries.push((key.to_owned(), value));
            assert(entries_view(entries@) =~= s.push((key@, value@)));
        },
    }
}

/// Removes every entry named `key`, keeping the others in order.
pub fn remove_entries<V: View>(entries: &mut Vec<(String, V)>, key: &str)
    ensures
        entries_view(final(entries)@) == remove_key(entries_view(old(entries)@), key@),
{
    let ghost s = entries_view(entries@);
    let mut i: usize = 0;
    let ghost mut j: int = 0;
    while i < entries.len()
        invariant
            0 <= j <= s.len(),
            i == remove_key(s.take(j), key@).len(),
            entries_view(entries@) == remove_key(s.take(j), key@) + s.skip(j),
        decreases s.len() - j,
    {
        let ghost before = entries_view(entries@);
        proof {
            assert(before[i as int] == s[j]);
            assert(s.take(j + 1).drop_last() =~= s.take(j));
        }
        if text_eq(entries[i].0.as_str(), key) {
            entries.remove(i);
            proof {
                assert(s.take(j + 1).last() == s[j]);
                assert(remove_key(s.take(j + 1), key@) == remove_key(s.take(j), key@));
                assert(entries_view(entries@) =~= before.remove(i as int));
                assert(before.remove(i as int) =~= remove_key(s.take(j), key@) + s.skip(j + 1));
                assert(entries_view(entries@) =~= remove_key(s.take(j + 1), key@) + s.skip(j + 1));
            }
        } else {
            i = i + 1;
            proof {
                assert(s.take(j + 1).last() == s[j]);
                assert(remove_key(s.take(j + 1), key@) == remove_key(s.take(j), key@).push(s[j]));
                assert(before == remove_key(s.take(j), key@) + s.skip(j));
                assert(s.skip(j) =~= seq![s[j]] + s.skip(j + 1));
                assert(remove_key(s.take(j), key@).push(s[j]) + s.skip(j + 1) =~= remove_key(s.take(j), key@) + s.skip(j));
                assert(entries_view(entries@) =~= remove_key(s.take(j + 1), key@) + s.skip(j + 1));
            }
        }
        proof {
            j = j + 1;
        }
    }
    proof {
        assert(s.take(s.len() as int) =~= s);
        assert(entries_view(entries@) =~= remove_key(s, key@));
    }
}

} // verus!
