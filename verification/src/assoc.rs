//! Maps from strings, as lists of entries. The first entry with a key counts.

use crate::text::{
    ascending, copy_str, lemma_is_sort_unique, lemma_lex_irreflexive, lemma_lex_total,
    lemma_lex_transitive, lex_lt, sort_unique, sorted_set, str_eq, str_lt, views,
};
use vstd::prelude::*;

verus! {

/// The keys, in the order of the entries.
pub open spec fn keys<T>(m: Seq<(String, T)>) -> Seq<Seq<char>> {
    m.map_values(|e: (String, T)| e.0@)
}

/// Index of the first entry with key `k`, or the number of entries where there is none.
pub open spec fn key_index<T>(m: Seq<(String, T)>, k: Seq<char>) -> int
    decreases m.len(),
{
    if m.len() == 0 || m[0].0@ == k {
        0
    } else {
        1 + key_index(m.skip(1), k)
    }
}

pub open spec fn has_key<T>(m: Seq<(String, T)>, k: Seq<char>) -> bool {
    key_index(m, k) < m.len()
}

/// What stands under a key.
pub open spec fn lookup<T>(m: Seq<(String, T)>, k: Seq<char>) -> Option<T> {
    if has_key(m, k) {
        Some(m[key_index(m, k)].1)
    } else {
        None
    }
}

/// No key occurs twice.
pub open spec fn distinct_keys<T>(m: Seq<(String, T)>) -> bool {
    forall|i: int, j: int| 0 <= i < j < m.len() ==> (#[trigger] m[i]).0@ != (#[trigger] m[j]).0@
}

pub proof fn lemma_key_index<T>(m: Seq<(String, T)>, k: Seq<char>)
    ensures
        0 <= key_index(m, k) <= m.len(),
        forall|i: int| 0 <= i < key_index(m, k) ==> (#[trigger] m[i]).0@ != k,
        has_key(m, k) ==> m[key_index(m, k)].0@ == k,
        has_key(m, k) == keys(m).contains(k),
    decreases m.len(),
{
    if m.len() > 0 && m[0].0@ != k {
        lemma_key_index(m.skip(1), k);
        assert forall|i: int| 0 <= i < key_index(m, k) implies (#[trigger] m[i]).0@ != k by {
            if i > 0 {
                assert(m[i] == m.skip(1)[i - 1]);
            }
        }
    }
    if has_key(m, k) {
        assert(keys(m)[key_index(m, k)] == k);
    } else if keys(m).contains(k) {
        let i = choose|i: int| 0 <= i < keys(m).len() && keys(m)[i] == k;
        assert(m[i].0@ == k);
    }
}

pub proof fn lemma_key_index_is<T>(m: Seq<(String, T)>, k: Seq<char>, n: int)
    requires
        0 <= n <= m.len(),
        forall|i: int| 0 <= i < n ==> (#[trigger] m[i]).0@ != k,
        n < m.len() ==> m[n].0@ == k,
    ensures
        key_index(m, k) == n,
{
    lemma_key_index(m, k);
    if key_index(m, k) > n {
        assert(m[n].0@ != k);
    } else if key_index(m, k) < n {
        assert(m[key_index(m, k)].0@ != k);
    }
}

/// Index of the first entry with a key, if there is one.
pub fn find_key<T>(m: &Vec<(String, T)>, k: &str) -> (r: Option<usize>)
    ensures
        match r {
            Some(i) => i == key_index(m@, k@) && i < m@.len() && m@[i as int].0@ == k@,
            None => !has_key(m@, k@),
        },
        r is Some == has_key(m@, k@),
{
    let mut i: usize = 0;
    while i < m.len()
        invariant
            i <= m@.len(),
            forall|n: int| 0 <= n < i ==> (#[trigger] m@[n]).0@ != k@,
        decreases m@.len() - i,
    {
        if str_eq(m[i].0.as_str(), k) {
            proof {
                lemma_key_index_is(m@, k@, i as int);
            }
            return Some(i);
        }
        i += 1;
    }
    proof {
        lemma_key_index_is(m@, k@, i as int);
    }
    None
}

pub fn key_list<T>(m: &Vec<(String, T)>) -> (r: Vec<String>)
    ensures
        views(r@) == keys(m@),
{
    let mut r: Vec<String> = Vec::new();
    let mut i: usize = 0;
    while i < m.len()
        invariant
            i <= m@.len(),
            r@.len() == i,
            forall|n: int| 0 <= n < i ==> (#[trigger] r@[n])@ == m@[n].0@,
        decreases m@.len() - i,
    {
        r.push(copy_str(m[i].0.as_str()));
        i += 1;
    }
    assert(views(r@) =~= keys(m@));
    r
}


/// The keys in order, each once.
pub fn sorted_key_list<T>(m: &Vec<(String, T)>) -> (r: Vec<String>)
    ensures
        views(r@) == sort_unique(keys(m@)),
{
    let all = key_list(m);
    let r = sorted_set(&all);
    proof {
        lemma_is_sort_unique(views(r@), keys(m@));
    }
    r
}


/// Takes the entry with a key out.
pub fn remove_key<T>(m: &mut Vec<(String, T)>, k: &str) -> (r: Option<T>)
    requires
        distinct_keys(old(m)@),
    ensures
        r == lookup(old(m)@, k@),
        distinct_keys(final(m)@),
        !has_key(final(m)@, k@),
        has_key(old(m)@, k@) ==> final(m)@ == old(m)@.remove(key_index(old(m)@, k@)),
        !has_key(old(m)@, k@) ==> final(m)@ == old(m)@,
{
    match find_key(m, k) {
        Some(i) => {
            let e = m.remove(i);
            proof {
                lemma_key_index(old(m)@, k@);
                if has_key(m@, k@) {
                    lemma_key_index(m@, k@);
                    let n = key_index(m@, k@);
                    let n0 = if n < i {
                        n
                    } else {
                        n + 1
                    };
                    assert(m@[n] == old(m)@[n0]);
                    assert(old(m)@[n0].0@ != old(m)@[i as int].0@);
                }
            }
            Some(e.1)
        },
        None => None,
    }
}

/// The entries are in the order of their keys, and no key occurs twice.
pub open spec fn in_key_order<T>(m: Seq<(String, T)>) -> bool {
    ascending(keys(m))
}

pub proof fn lemma_order_is_distinct<T>(m: Seq<(String, T)>)
    requires
        in_key_order(m),
    ensures
        distinct_keys(m),
{
    assert forall|i: int, j: int| 0 <= i < j < m.len() implies (#[trigger] m[i]).0@ != (
    #[trigger] m[j]).0@ by {
        assert(lex_lt(keys(m)[i], keys(m)[j]));
        lemma_lex_irreflexive(keys(m)[i]);
    }
}

/// Position at which a key stands or would stand.
pub open spec fn order_index<T>(m: Seq<(String, T)>, k: Seq<char>) -> int
    decreases m.len(),
{
    if m.len() == 0 || !lex_lt(m[0].0@, k) {
        0
    } else {
        1 + order_index(m.skip(1), k)
    }
}

/// The map with a value under a key: in the place of the old one, or put in where it belongs.
pub open spec fn with_entry<T>(m: Seq<(String, T)>, k: String, v: T) -> Seq<(String, T)> {
    let i = order_index(m, k@);
    if i < m.len() && m[i].0@ == k@ {
        m.update(i, (m[i].0, v))
    } else {
        m.insert(i, (k, v))
    }
}

proof fn lemma_order_index<T>(m: Seq<(String, T)>, k: Seq<char>, n: int)
    requires
        0 <= n <= m.len(),
        forall|i: int| 0 <= i < n ==> lex_lt((#[trigger] m[i]).0@, k),
        n < m.len() ==> !lex_lt(m[n].0@, k),
    ensures
        order_index(m, k) == n,
    decreases m.len(),
{
    if n > 0 {
        assert(lex_lt(m[0].0@, k));
        assert forall|i: int| 0 <= i < n - 1 implies lex_lt((#[trigger] m.skip(1)[i]).0@, k) by {
            assert(m.skip(1)[i] == m[i + 1]);
        }
        lemma_order_index(m.skip(1), k, n - 1);
    }
}

/// Puts a value under a key.
pub fn set_entry<T>(m: &mut Vec<(String, T)>, k: String, v: T)
    requires
        in_key_order(old(m)@),
    ensures
        final(m)@ == with_entry(old(m)@, k, v),
{
    let mut i: usize = 0;
    while i < m.len() && str_lt(m[i].0.as_str(), k.as_str())
        invariant
            i <= m@.len(),
            *m == *old(m),
            forall|n: int| 0 <= n < i ==> lex_lt((#[trigger] m@[n]).0@, k@),
        decreases m@.len() - i,
    {
        i += 1;
    }
    proof {
        lemma_order_index(m@, k@, i as int);
    }
    if i < m.len() && str_eq(m[i].0.as_str(), k.as_str()) {
        let old_entry = m.remove(i);
        m.insert(i, (old_entry.0, v));
        assert(m@ =~= with_entry(old(m)@, k, v));
    } else {
        m.insert(i, (k, v));
    }
}

/// Putting a value under a key gives that value back, changes no other key, and keeps the order.
pub proof fn law_set_then_get<T>(m: Seq<(String, T)>, k: String, v: T, other: Seq<char>)
    requires
        in_key_order(m),
    ensures
        in_key_order(with_entry(m, k, v)),
        lookup(with_entry(m, k, v), k@) == Some(v),
        other != k@ ==> lookup(with_entry(m, k, v), other) == lookup(m, other),
{
    let i = order_index(m, k@);
    let r = with_entry(m, k, v);
    lemma_order_index_fits(m, k@);
    assert forall|p: int, q: int| 0 <= p < q < keys(r).len() implies lex_lt(
        #[trigger] keys(r)[p],
        #[trigger] keys(r)[q],
    ) by {
        if i < m.len() && m[i].0@ == k@ {
            assert(keys(r)[p] == keys(m)[p] && keys(r)[q] == keys(m)[q]);
        } else if i < m.len() {
            lemma_lex_total(m[i].0@, k@);
            if q < i {
                assert(keys(r)[p] == keys(m)[p] && keys(r)[q] == keys(m)[q]);
            } else if q == i {
                assert(keys(r)[p] == m[p].0@);
            } else if p < i {
                assert(keys(r)[p] == keys(m)[p] && keys(r)[q] == keys(m)[q - 1]);
            } else if p == i {
                assert(keys(r)[q] == keys(m)[q - 1]);
                if q - 1 > i {
                    assert(lex_lt(keys(m)[i], keys(m)[q - 1]));
                    lemma_lex_transitive(k@, keys(m)[i], keys(m)[q - 1]);
                }
            } else {
                assert(keys(r)[p] == keys(m)[p - 1] && keys(r)[q] == keys(m)[q - 1]);
            }
        } else if q == i {
            assert(keys(r)[p] == m[p].0@);
        } else {
            assert(keys(r)[p] == keys(m)[p] && keys(r)[q] == keys(m)[q]);
        }
    }
    lemma_order_is_distinct(m);
    lemma_order_is_distinct(r);
    assert(r[i] == (r[i].0, v) && r[i].0@ == k@);
    assert forall|n: int| 0 <= n < i implies (#[trigger] r[n]).0@ != k@ by {
        assert(r[n].0@ != r[i].0@);
    }
    lemma_key_index_is(r, k@, i);
    if other != k@ {
        lemma_key_index(m, other);
        lemma_key_index(r, other);
        if has_key(m, other) {
            let n = key_index(m, other);
            let n2 = if i < m.len() && m[i].0@ == k@ || n < i {
                n
            } else {
                n + 1
            };
            assert(r[n2] == m[n]);
            assert forall|j: int| 0 <= j < n2 implies (#[trigger] r[j]).0@ != other by {
                assert(r[j].0@ != r[n2].0@);
            }
            lemma_key_index_is(r, other, n2);
        } else if has_key(r, other) {
            let n2 = key_index(r, other);
            if n2 != i {
                let n = if i < m.len() && m[i].0@ == k@ || n2 < i {
                    n2
                } else {
                    n2 - 1
                };
                assert(m[n] == r[n2]);
                assert(keys(m)[n] == other);
            }
        }
    }
}

proof fn lemma_order_index_fits<T>(m: Seq<(String, T)>, k: Seq<char>)
    ensures
        0 <= order_index(m, k) <= m.len(),
        forall|i: int| 0 <= i < order_index(m, k) ==> lex_lt((#[trigger] m[i]).0@, k),
        order_index(m, k) < m.len() ==> !lex_lt(m[order_index(m, k)].0@, k),
    decreases m.len(),
{
    if m.len() > 0 && lex_lt(m[0].0@, k) {
        lemma_order_index_fits(m.skip(1), k);
        assert forall|i: int| 0 <= i < order_index(m, k) implies lex_lt(
            (#[trigger] m[i]).0@,
            k,
        ) by {
            if i > 0 {
                assert(m[i] == m.skip(1)[i - 1]);
            }
        }
    }
}

} // verus!
