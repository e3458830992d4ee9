//! A small map from names to names, kept as a list of pairs with distinct
//! keys, so that the entries with a given value can be found and removed.

use crate::text::str_eq;
use vstd::prelude::*;

verus! {

broadcast use vstd::string::group_string_axioms;

/// No key occurs twice.
pub open spec fn unique_keys(s: Seq<(String, String)>) -> bool {
    forall|i: int, j: int|
        0 <= i < s.len() && 0 <= j < s.len() && i != j ==> (#[trigger] s[i]).0@ != (
        #[trigger] s[j]).0@
}

/// Whether some pair has key `k`.
pub open spec fn has_key(s: Seq<(String, String)>, k: Seq<char>) -> bool {
    exists|i: int| 0 <= i < s.len() && (#[trigger] s[i]).0@ == k
}

/// The list as a map from key to value.
pub open spec fn assoc_view(s: Seq<(String, String)>) -> Map<Seq<char>, Seq<char>> {
    Map::new(
        |k: Seq<char>| has_key(s, k),
        |k: Seq<char>| s[choose|i: int| 0 <= i < s.len() && (#[trigger] s[i]).0@ == k].1@,
    )
}

/// With distinct keys, the map holds each pair.
pub proof fn lemma_assoc_entry(s: Seq<(String, String)>, i: int)
    requires
        unique_keys(s),
        0 <= i < s.len(),
    ensures
        assoc_view(s).contains_key(s[i].0@),
        assoc_view(s)[s[i].0@] == s[i].1@,
{
    let k = s[i].0@;
    assert(has_key(s, k));
    let j = choose|j: int| 0 <= j < s.len() && (#[trigger] s[j]).0@ == k;
    assert(j == i);
}

/// Two lists with distinct keys and the same pairs, up to the views of their
/// strings, are the same map.
pub proof fn lemma_assoc_ext(s: Seq<(String, String)>, m: Map<Seq<char>, Seq<char>>)
    requires
        unique_keys(s),
        forall|k: Seq<char>| m.contains_key(k) <==> has_key(s, k),
        forall|i: int| 0 <= i < s.len() ==> m[(#[trigger] s[i]).0@] == s[i].1@,
    ensures
        assoc_view(s) == m,
{
    assert forall|k: Seq<char>| #[trigger] assoc_view(s).contains_key(k) implies assoc_view(s)[k]
        == m[k] by {
        let i = choose|i: int| 0 <= i < s.len() && (#[trigger] s[i]).0@ == k;
        lemma_assoc_entry(s, i);
    }
    assert(assoc_view(s) =~= m);
}

/// The position of key `k`, if any.
pub fn find_key(v: &Vec<(String, String)>, k: &str) -> (res: Option<usize>)
    ensures
        match res {
            Some(i) => i < v@.len() && v@[i as int].0@ == k@,
            None => !has_key(v@, k@),
        },
{
    let mut i: usize = 0;
    while i < v.len()
        invariant
            i <= v@.len(),
            forall|j: int| 0 <= j < i ==> (#[trigger] v@[j]).0@ != k@,
        decreases v@.len() - i,
    {
        if str_eq(v[i].0.as_str(), k) {
            return Some(i);
        }
        i = i + 1;
    }
    None
}

/// The value for key `k`, if any.
pub fn assoc_get(v: &Vec<(String, String)>, k: &str) -> (res: Option<String>)
    requires
        unique_keys(v@),
    ensures
        match res {
            Some(x) => assoc_view(v@).contains_key(k@) && x@ == assoc_view(v@)[k@],
            None => !assoc_view(v@).contains_key(k@),
        },
{
    match find_key(v, k) {
        Some(i) => {
            proof {
                lemma_assoc_entry(v@, i as int);
            }
            Some(v[i].1.clone())
        },
        None => None,
    }
}

/// Sets the value of key `k`.
pub fn assoc_insert(v: &mut Vec<(String, String)>, k: String, x: String)
    requires
        unique_keys(old(v)@),
    ensures
        unique_keys(final(v)@),
        assoc_view(final(v)@) == assoc_view(old(v)@).insert(k@, x@),
{
    let ghost old_s = v@;
    let ghost m = assoc_view(old_s).insert(k@, x@);
    match find_key(v, k.as_str()) {
        Some(i) => {
            v.remove(i);
            v.insert(i, (k, x));
            let ghost s = v@;
            assert(s =~= old_s.update(i as int, s[i as int]));
            assert forall|a: int, b: int|
                0 <= a < s.len() && 0 <= b < s.len() && a != b implies (#[trigger] s[a]).0@ != (
            #[trigger] s[b]).0@ by {
                if a != i && b != i {
                    assert(old_s[a] == s[a] && old_s[b] == s[b]);
                } else if a == i {
                    assert(old_s[b] == s[b]);
                } else {
                    assert(old_s[a] == s[a]);
                }
            }
            assert forall|key: Seq<char>| m.contains_key(key) <==> has_key(s, key) by {
                if m.contains_key(key) && key != k@ {
                    let j = choose|j: int| 0 <= j < old_s.len() && (#[trigger] old_s[j]).0@ == key;
                    assert(s[j] == old_s[j]);
                }
                if has_key(s, key) {
                    let j = choose|j: int| 0 <= j < s.len() && (#[trigger] s[j]).0@ == key;
                    if j != i {
                        assert(old_s[j] == s[j]);
                    }
                }
            }
            assert forall|j: int| 0 <= j < s.len() implies m[(#[trigger] s[j]).0@] == s[j].1@ by {
                if j != i {
                    assert(old_s[j] == s[j]);
                    lemma_assoc_entry(old_s, j);
                }
            }
            proof {
                lemma_assoc_ext(s, m);
            }
        },
        None => {
            v.push((k, x));
            let ghost s = v@;
            assert forall|a: int, b: int|
                0 <= a < s.len() && 0 <= b < s.len() && a != b implies (#[trigger] s[a]).0@ != (
            #[trigger] s[b]).0@ by {
                if a < old_s.len() && b < old_s.len() {
                    assert(old_s[a] == s[a] && old_s[b] == s[b]);
                } else if a < old_s.len() {
                    assert(old_s[a] == s[a]);
                } else {
                    assert(old_s[b] == s[b]);
                }
            }
            assert forall|key: Seq<char>| m.contains_key(key) <==> has_key(s, key) by {
                if m.contains_key(key) && key != k@ {
                    let j = choose|j: int| 0 <= j < old_s.len() && (#[trigger] old_s[j]).0@ == key;
                    assert(s[j] == old_s[j]);
                }
                if key == k@ {
                    assert(s[old_s.len() as int].0@ == key);
                }
                if has_key(s, key) {
                    let j = choose|j: int| 0 <= j < s.len() && (#[trigger] s[j]).0@ == key;
                    if j < old_s.len() {
                        assert(old_s[j] == s[j]);
                    }
                }
            }
            assert forall|j: int| 0 <= j < s.len() implies m[(#[trigger] s[j]).0@] == s[j].1@ by {
                if j < old_s.len() {
                    assert(old_s[j] == s[j]);
                    lemma_assoc_entry(old_s, j);
                }
            }
            proof {
                lemma_assoc_ext(s, m);
            }
        },
    }
}

/// Removes key `k`; gives its value, if it had one.
pub fn assoc_remove(v: &mut Vec<(String, String)>, k: &str) -> (res: Option<String>)
    requires
        unique_keys(old(v)@),
    ensures
        unique_keys(final(v)@),
        assoc_view(final(v)@) == assoc_view(old(v)@).remove(k@),
        match res {
            Some(x) => assoc_view(old(v)@).contains_key(k@) && x@ == assoc_view(old(v)@)[k@],
            None => !assoc_view(old(v)@).contains_key(k@),
        },
{
    let ghost old_s = v@;
    let ghost m = assoc_view(old_s).remove(k@);
    match find_key(v, k) {
        Some(i) => {
            proof {
                lemma_assoc_entry(old_s, i as int);
            }
            let (_, x) = v.remove(i);
            let ghost s = v@;
            assert forall|a: int, b: int|
                0 <= a < s.len() && 0 <= b < s.len() && a != b implies (#[trigger] s[a]).0@ != (
            #[trigger] s[b]).0@ by {
                let a2 = if a < i { a } else { a + 1 };
                let b2 = if b < i { b } else { b + 1 };
                assert(old_s[a2] == s[a] && old_s[b2] == s[b]);
            }
            assert forall|key: Seq<char>| m.contains_key(key) <==> has_key(s, key) by {
                if m.contains_key(key) {
                    let j = choose|j: int| 0 <= j < old_s.len() && (#[trigger] old_s[j]).0@ == key;
                    assert(j != i);
                    if j < i {
                        assert(s[j] == old_s[j]);
                    } else {
                        assert(s[j - 1] == old_s[j]);
                    }
                }
                if has_key(s, key) {
                    let j = choose|j: int| 0 <= j < s.len() && (#[trigger] s[j]).0@ == key;
                    let j2 = if j < i { j } else { j + 1 };
                    assert(old_s[j2] == s[j]);
                    assert(old_s[j2].0@ != old_s[i as int].0@);
                }
            }
            assert forall|j: int| 0 <= j < s.len() implies m[(#[trigger] s[j]).0@] == s[j].1@ by {
                let j2 = if j < i { j } else { j + 1 };
                assert(old_s[j2] == s[j]);
                lemma_assoc_entry(old_s, j2);
            }
            proof {
                lemma_assoc_ext(s, m);
            }
            Some(x)
        },
        None => {
            assert(assoc_view(old_s).remove(k@) =~= assoc_view(old_s));
            None
        },
    }
}

/// Removes every pair whose value is `x`; gives their keys.
pub fn assoc_remove_value(v: &mut Vec<(String, String)>, x: &str) -> (removed: Vec<String>)
    requires
        unique_keys(old(v)@),
    ensures
        unique_keys(final(v)@),
        assoc_view(final(v)@) == assoc_view(old(v)@).restrict(
            assoc_view(old(v)@).dom().filter(|k: Seq<char>| assoc_view(old(v)@)[k] != x@),
        ),
        forall|i: int|
            0 <= i < removed@.len() ==> assoc_view(old(v)@).contains_key((#[trigger] removed@[i])@)
                && assoc_view(old(v)@)[removed@[i]@] == x@,
        forall|k: Seq<char>|
            #![trigger assoc_view(old(v)@).contains_key(k)]
            assoc_view(old(v)@).contains_key(k) && assoc_view(old(v)@)[k] == x@ ==> exists|i: int|
                0 <= i < removed@.len() && (#[trigger] removed@[i])@ == k,
{
    let ghost old_s = v@;
    let ghost old_m = assoc_view(old_s);
    let mut kept: Vec<(String, String)> = Vec::new();
    let mut removed: Vec<String> = Vec::new();
    // Where each kept pair and each removed key came from.
    let ghost mut from_kept: Seq<int> = Seq::empty();
    let ghost mut from_removed: Seq<int> = Seq::empty();
    let mut i: usize = 0;
    while i < v.len()
        invariant
            old_s == v@,
            unique_keys(old_s),
            old_m == assoc_view(old_s),
            i <= old_s.len(),
            from_kept.len() == kept@.len(),
            from_removed.len() == removed@.len(),
            forall|a: int|
                0 <= a < kept@.len() ==> 0 <= #[trigger] from_kept[a] < i && old_s[from_kept[a]]
                    == kept@[a] && old_s[from_kept[a]].1@ != x@,
            forall|j: int|
                0 <= j < i && (#[trigger] old_s[j]).1@ != x@ ==> exists|a: int|
                    0 <= a < kept@.len() && from_kept[a] == j,
            forall|a: int|
                0 <= a < removed@.len() ==> 0 <= #[trigger] from_removed[a] < i
                    && old_s[from_removed[a]].0 == removed@[a] && old_s[from_removed[a]].1@ == x@,
            forall|j: int|
                0 <= j < i && (#[trigger] old_s[j]).1@ == x@ ==> exists|a: int|
                    0 <= a < removed@.len() && from_removed[a] == j,
            forall|a: int, b: int|
                0 <= a < kept@.len() && 0 <= b < kept@.len() && a != b ==> #[trigger] from_kept[a]
                    != #[trigger] from_kept[b],
        decreases old_s.len() - i,
    {
        if str_eq(v[i].1.as_str(), x) {
            removed.push(v[i].0.clone());
            proof {
                let fr = from_removed;
                from_removed = from_removed.push(i as int);
                assert forall|j: int|
                    0 <= j < i + 1 && (#[trigger] old_s[j]).1@ == x@ implies exists|a: int|
                    0 <= a < removed@.len() && from_removed[a] == j by {
                    if j < i {
                        let a = choose|a: int| 0 <= a < fr.len() && fr[a] == j;
                        assert(from_removed[a] == j);
                    } else {
                        assert(from_removed[fr.len() as int] == j);
                    }
                }
            }
        } else {
            kept.push((v[i].0.clone(), v[i].1.clone()));
            proof {
                let fk = from_kept;
                from_kept = from_kept.push(i as int);
                assert forall|j: int|
                    0 <= j < i + 1 && (#[trigger] old_s[j]).1@ != x@ implies exists|a: int|
                    0 <= a < kept@.len() && from_kept[a] == j by {
                    if j < i {
                        let a = choose|a: int| 0 <= a < fk.len() && fk[a] == j;
                        assert(from_kept[a] == j);
                    } else {
                        assert(from_kept[fk.len() as int] == j);
                    }
                }
            }
        }
        i = i + 1;
    }
    let ghost s = kept@;
    let ghost m = old_m.restrict(old_m.dom().filter(|k: Seq<char>| old_m[k] != x@));
    assert forall|a: int, b: int|
        0 <= a < s.len() && 0 <= b < s.len() && a != b implies (#[trigger] s[a]).0@ != (
    #[trigger] s[b]).0@ by {
        assert(from_kept[a] != from_kept[b]);
        assert(old_s[from_kept[a]] == s[a] && old_s[from_kept[b]] == s[b]);
    }
    assert forall|key: Seq<char>| m.contains_key(key) <==> has_key(s, key) by {
        if m.contains_key(key) {
            let j = choose|j: int| 0 <= j < old_s.len() && (#[trigger] old_s[j]).0@ == key;
            lemma_assoc_entry(old_s, j);
            let a = choose|a: int| 0 <= a < s.len() && from_kept[a] == j;
            assert(old_s[from_kept[a]] == s[a]);
            assert(s[a].0@ == key);
        }
        if has_key(s, key) {
            let a = choose|a: int| 0 <= a < s.len() && (#[trigger] s[a]).0@ == key;
            assert(old_s[from_kept[a]] == s[a]);
            lemma_assoc_entry(old_s, from_kept[a]);
        }
    }
    assert forall|a: int| 0 <= a < s.len() implies m[(#[trigger] s[a]).0@] == s[a].1@ by {
        assert(old_s[from_kept[a]] == s[a]);
        lemma_assoc_entry(old_s, from_kept[a]);
    }
    proof {
        lemma_assoc_ext(s, m);
    }
    assert forall|i: int| 0 <= i < removed@.len() implies assoc_view(old(v)@).contains_key(
        (#[trigger] removed@[i])@,
    ) && assoc_view(old(v)@)[removed@[i]@] == x@ by {
        assert(old_s[from_removed[i]].0 == removed@[i]);
        lemma_assoc_entry(old_s, from_removed[i]);
    }
    assert forall|k: Seq<char>|
        #![trigger assoc_view(old(v)@).contains_key(k)]
        assoc_view(old(v)@).contains_key(k) && assoc_view(old(v)@)[k] == x@ implies exists|i: int|
        0 <= i < removed@.len() && (#[trigger] removed@[i])@ == k by {
        let j = choose|j: int| 0 <= j < old_s.len() && (#[trigger] old_s[j]).0@ == k;
        lemma_assoc_entry(old_s, j);
        let a = choose|a: int| 0 <= a < removed@.len() && from_removed[a] == j;
        assert(old_s[from_removed[a]].0 == removed@[a]);
        assert(removed@[a]@ == k);
    }
    *v = kept;
    removed
}

} // verus!
