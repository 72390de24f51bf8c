//! Profiles that build on profiles: which ones a profile reaches.

use crate::assoc::{find_key, keys, lemma_key_index, lookup};
use crate::text::{contains_str, extend_strings, push_copy, views};
use vstd::prelude::*;

verus! {

/// The profiles that each profile names as its bases. A profile that is not listed has none.
pub type BaseTable = Vec<(String, Vec<String>)>;

pub open spec fn bases(t: Seq<(String, Vec<String>)>, name: Seq<char>) -> Seq<Seq<char>> {
    match lookup(t, name) {
        Some(b) => views(b@),
        None => Seq::empty(),
    }
}

/// How many entries of a list are not in another.
pub open spec fn count_outside(s: Seq<Seq<char>>, seen: Seq<Seq<char>>) -> nat
    decreases s.len(),
{
    if s.len() == 0 {
        0
    } else {
        count_outside(s.drop_last(), seen) + if seen.contains(s.last()) {
            0nat
        } else {
            1nat
        }
    }
}

proof fn lemma_count_outside(s: Seq<Seq<char>>, seen: Seq<Seq<char>>, n: Seq<char>)
    ensures
        count_outside(s, seen.push(n)) <= count_outside(s, seen),
        s.contains(n) && !seen.contains(n) ==> count_outside(s, seen.push(n)) < count_outside(
            s,
            seen,
        ),
    decreases s.len(),
{
    let more = seen.push(n);
    assert(more[seen.len() as int] == n);
    assert forall|x: Seq<char>| seen.contains(x) implies #[trigger] more.contains(x) by {
        let i = choose|i: int| 0 <= i < seen.len() && seen[i] == x;
        assert(more[i] == x);
    }
    if s.len() > 0 {
        lemma_count_outside(s.drop_last(), seen, n);
        if s.contains(n) && s.last() != n {
            let i = choose|i: int| 0 <= i < s.len() && s[i] == n;
            assert(s.drop_last()[i] == n);
        }
    }
}

/// The profiles met on the way through bases, in order: the last of those that wait is next, and
/// its bases wait behind the others. None is met twice.
pub open spec fn walk(
    t: Seq<(String, Vec<String>)>,
    waiting: Seq<Seq<char>>,
    seen: Seq<Seq<char>>,
) -> Seq<Seq<char>>
    decreases count_outside(keys(t), seen), waiting.len(),
    via walk_decreases
{
    if waiting.len() == 0 {
        seen
    } else {
        let name = waiting.last();
        if seen.contains(name) {
            walk(t, waiting.drop_last(), seen)
        } else {
            walk(t, waiting.drop_last() + bases(t, name), seen.push(name))
        }
    }
}

#[via_fn]
proof fn walk_decreases(t: Seq<(String, Vec<String>)>, waiting: Seq<Seq<char>>, seen: Seq<Seq<char>>) {
    if waiting.len() > 0 {
        let name = waiting.last();
        lemma_count_outside(keys(t), seen, name);
        lemma_key_index(t, name);
    }
}

/// The profiles that a profile reaches, itself first.
pub open spec fn reached(t: Seq<(String, Vec<String>)>, name: Seq<char>) -> Seq<Seq<char>> {
    walk(t, seq![name], Seq::empty())
}

/// Walks from a profile through its bases.
pub fn walk_bases(t: &BaseTable, name: &str) -> (r: Vec<String>)
    ensures
        views(r@) == reached(t@, name@),
{
    let mut waiting: Vec<String> = Vec::new();
    push_copy(&mut waiting, name);
    let mut seen: Vec<String> = Vec::new();
    assert(views(waiting@) =~= seq![name@]);
    assert(views(seen@) =~= Seq::<Seq<char>>::empty());
    while waiting.len() > 0
        invariant
            walk(t@, views(waiting@), views(seen@)) == reached(t@, name@),
        decreases count_outside(keys(t@), views(seen@)), waiting@.len(),
    {
        let ghost w = views(waiting@);
        let ghost s = views(seen@);
        let next = match waiting.pop() {
            Some(x) => x,
            None => String::new(),
        };
        proof {
            assert(w.last() == next@);
            assert(views(waiting@) =~= w.drop_last());
            lemma_count_outside(keys(t@), s, next@);
            lemma_key_index(t@, next@);
        }
        if !contains_str(&seen, next.as_str()) {
            push_copy(&mut seen, next.as_str());
            match find_key(t, next.as_str()) {
                Some(k) => {
                    extend_strings(&mut waiting, &t[k].1);
                    assert(views(waiting@) =~= w.drop_last() + bases(t@, next@));
                },
                None => {
                    assert(views(waiting@) =~= w.drop_last() + bases(t@, next@));
                },
            }
        }
    }
    assert(views(waiting@) =~= Seq::<Seq<char>>::empty());
    seen
}

// ---------------------------------------------------------------------------
// What is reached
// ---------------------------------------------------------------------------

/// A way from one profile to another, each step to a base.
pub open spec fn is_way(t: Seq<(String, Vec<String>)>, way: Seq<Seq<char>>, from: Seq<char>, to: Seq<char>) -> bool {
    &&& way.len() > 0
    &&& way[0] == from
    &&& way.last() == to
    &&& forall|i: int| 0 < i < way.len() ==> bases(t, way[i - 1]).contains(#[trigger] way[i])
}

pub open spec fn leads_to(t: Seq<(String, Vec<String>)>, from: Seq<char>, to: Seq<char>) -> bool {
    exists|way: Seq<Seq<char>>| is_way(t, way, from, to)
}

pub open spec fn closed_in(t: Seq<(String, Vec<String>)>, some: Seq<Seq<char>>, all: Seq<Seq<char>>, waiting: Seq<Seq<char>>) -> bool {
    forall|x: Seq<char>, y: Seq<char>|
        some.contains(x) && #[trigger] bases(t, x).contains(y) ==> #[trigger] all.contains(y)
            || waiting.contains(y)
}

proof fn lemma_concat_contains(a: Seq<Seq<char>>, b: Seq<Seq<char>>, x: Seq<char>)
    ensures
        (a + b).contains(x) <==> a.contains(x) || b.contains(x),
{
    if a.contains(x) {
        let i = choose|i: int| 0 <= i < a.len() && a[i] == x;
        assert((a + b)[i] == x);
    }
    if b.contains(x) {
        let i = choose|i: int| 0 <= i < b.len() && b[i] == x;
        assert((a + b)[a.len() + i] == x);
    }
}

proof fn lemma_push_contains(a: Seq<Seq<char>>, n: Seq<char>, x: Seq<char>)
    ensures
        a.push(n).contains(x) <==> a.contains(x) || x == n,
{
    if a.contains(x) {
        let i = choose|i: int| 0 <= i < a.len() && a[i] == x;
        assert(a.push(n)[i] == x);
    }
    assert(a.push(n)[a.len() as int] == n);
}

proof fn lemma_drop_contains(a: Seq<Seq<char>>, x: Seq<char>)
    requires
        a.len() > 0,
    ensures
        a.contains(x) <==> a.drop_last().contains(x) || x == a.last(),
{
    assert(a =~= a.drop_last().push(a.last()));
    lemma_push_contains(a.drop_last(), a.last(), x);
}

/// The walk keeps what was seen, reaches all that waits, and with a profile its bases.
proof fn lemma_walk_closed(t: Seq<(String, Vec<String>)>, waiting: Seq<Seq<char>>, seen: Seq<Seq<char>>)
    requires
        closed_in(t, seen, seen, waiting),
    ensures
        forall|x: Seq<char>|
            seen.contains(x) || waiting.contains(x) ==> #[trigger] walk(t, waiting, seen).contains(
                x,
            ),
        closed_in(t, walk(t, waiting, seen), walk(t, waiting, seen), Seq::empty()),
    decreases count_outside(keys(t), seen), waiting.len(),
{
    if waiting.len() == 0 {
        assert forall|x: Seq<char>, y: Seq<char>|
            seen.contains(x) && #[trigger] bases(t, x).contains(y) implies #[trigger] seen.contains(
            y,
        ) || Seq::<Seq<char>>::empty().contains(y) by {
            assert(seen.contains(y) || waiting.contains(y));
        }
    } else {
        let name = waiting.last();
        let rest = waiting.drop_last();
        lemma_count_outside(keys(t), seen, name);
        lemma_key_index(t, name);
        if seen.contains(name) {
            assert(closed_in(t, seen, seen, rest)) by {
                assert forall|x: Seq<char>, y: Seq<char>|
                    seen.contains(x) && #[trigger] bases(t, x).contains(y) implies
                    #[trigger] seen.contains(y) || rest.contains(y) by {
                    assert(seen.contains(y) || waiting.contains(y));
                    lemma_drop_contains(waiting, y);
                }
            }
            lemma_walk_closed(t, rest, seen);
            assert forall|x: Seq<char>| seen.contains(x) || waiting.contains(x) implies
                #[trigger] walk(t, waiting, seen).contains(x) by {
                lemma_drop_contains(waiting, x);
                assert(walk(t, rest, seen).contains(x));
            }
        } else {
            let more = seen.push(name);
            let next = rest + bases(t, name);
            assert(closed_in(t, more, more, next)) by {
                assert forall|x: Seq<char>, y: Seq<char>|
                    more.contains(x) && #[trigger] bases(t, x).contains(y) implies
                    #[trigger] more.contains(y) || next.contains(y) by {
                    lemma_push_contains(seen, name, x);
                    lemma_push_contains(seen, name, y);
                    lemma_concat_contains(rest, bases(t, name), y);
                    if x != name {
                        assert(seen.contains(y) || waiting.contains(y));
                        lemma_drop_contains(waiting, y);
                    }
                }
            }
            lemma_walk_closed(t, next, more);
            assert forall|x: Seq<char>| seen.contains(x) || waiting.contains(x) implies
                #[trigger] walk(t, waiting, seen).contains(x) by {
                lemma_push_contains(seen, name, x);
                lemma_drop_contains(waiting, x);
                lemma_concat_contains(rest, bases(t, name), x);
                assert(walk(t, next, more).contains(x));
            }
        }
    }
}

/// All that the walk meets can be reached from where it started.
proof fn lemma_walk_reaches(
    t: Seq<(String, Vec<String>)>,
    waiting: Seq<Seq<char>>,
    seen: Seq<Seq<char>>,
    from: Seq<char>,
)
    requires
        forall|x: Seq<char>| #[trigger] seen.contains(x) ==> leads_to(t, from, x),
        forall|x: Seq<char>| #[trigger] waiting.contains(x) ==> leads_to(t, from, x),
    ensures
        forall|x: Seq<char>| #[trigger]
            walk(t, waiting, seen).contains(x) ==> leads_to(t, from, x),
    decreases count_outside(keys(t), seen), waiting.len(),
{
    if waiting.len() > 0 {
        let name = waiting.last();
        let rest = waiting.drop_last();
        lemma_count_outside(keys(t), seen, name);
        lemma_key_index(t, name);
        assert(waiting.contains(name)) by {
            assert(waiting[waiting.len() - 1] == name);
        }
        assert forall|x: Seq<char>| #[trigger] rest.contains(x) implies leads_to(t, from, x) by {
            lemma_drop_contains(waiting, x);
            assert(waiting.contains(x));
        }
        if seen.contains(name) {
            lemma_walk_reaches(t, rest, seen, from);
            assert(walk(t, waiting, seen) == walk(t, rest, seen));
        } else {
            let more = seen.push(name);
            let next = rest + bases(t, name);
            assert forall|x: Seq<char>| #[trigger] more.contains(x) implies leads_to(
                t,
                from,
                x,
            ) by {
                lemma_push_contains(seen, name, x);
                if x != name {
                    assert(seen.contains(x));
                }
            }
            assert forall|x: Seq<char>| #[trigger] next.contains(x) implies leads_to(
                t,
                from,
                x,
            ) by {
                lemma_concat_contains(rest, bases(t, name), x);
                if rest.contains(x) {
                } else {
                    let way = choose|way: Seq<Seq<char>>| is_way(t, way, from, name);
                    let longer = way.push(x);
                    assert forall|i: int| 0 < i < longer.len() implies bases(
                        t,
                        longer[i - 1],
                    ).contains(#[trigger] longer[i]) by {
                        if i < way.len() {
                            assert(bases(t, way[i - 1]).contains(way[i]));
                        } else {
                            assert(longer[i - 1] == name);
                        }
                    }
                    assert(is_way(t, longer, from, x));
                }
            }
            lemma_walk_reaches(t, next, more, from);
            assert(walk(t, waiting, seen) == walk(t, next, more));
        }
    } else {
        assert(walk(t, waiting, seen) == seen);
    }
}

proof fn lemma_way_stays(t: Seq<(String, Vec<String>)>, all: Seq<Seq<char>>, way: Seq<Seq<char>>, from: Seq<char>, to: Seq<char>)
    requires
        is_way(t, way, from, to),
        all.contains(from),
        closed_in(t, all, all, Seq::empty()),
    ensures
        all.contains(to),
    decreases way.len(),
{
    if way.len() > 1 {
        let front = way.drop_last();
        let before = front.last();
        assert(front[0] == from);
        assert forall|i: int| 0 < i < front.len() implies bases(t, front[i - 1]).contains(
            #[trigger] front[i],
        ) by {
            assert(bases(t, way[i - 1]).contains(way[i]));
        }
        assert(is_way(t, front, from, before));
        lemma_way_stays(t, all, front, from, before);
        assert(bases(t, way[way.len() - 2]).contains(way[way.len() - 1]));
        assert(bases(t, before).contains(to));
        assert(!Seq::<Seq<char>>::empty().contains(to));
    }
}

/// A walk meets exactly the profiles to which bases lead, also where profiles build on each other
/// in a circle.
pub proof fn law_walk_meets_what_bases_lead_to(t: Seq<(String, Vec<String>)>, from: Seq<char>, x: Seq<char>)
    ensures
        reached(t, from).contains(x) <==> leads_to(t, from, x),
{
    let start = seq![from];
    let none = Seq::<Seq<char>>::empty();
    assert(closed_in(t, none, none, start));
    lemma_walk_closed(t, start, none);
    assert(start[0] == from);
    assert(start.contains(from));
    assert(reached(t, from).contains(from));
    assert forall|y: Seq<char>| #[trigger] start.contains(y) implies leads_to(t, from, y) by {
        assert(is_way(t, seq![from], from, from));
    }
    lemma_walk_reaches(t, start, none, from);
    if leads_to(t, from, x) {
        let way = choose|way: Seq<Seq<char>>| is_way(t, way, from, x);
        lemma_way_stays(t, reached(t, from), way, from, x);
    }
}

} // verus!
