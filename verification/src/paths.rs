//! Paths as texts, compared by their components.

pub mod laws;

use crate::text::{
    chars_of, concat2, concat3, copy_str, find_last, first_index, from_chars, join, join_strings,
    last_index, lemma_filter_none, lemma_filter_step, lemma_first_index, lemma_first_index_is,
    lemma_last_index, opt_view, push_copy, split_on, str_eq, str_split, strings_eq, sub_chars,
    views,
};
use vstd::prelude::*;

verus! {

/// A part between slashes that names something: neither empty nor a single dot.
pub open spec fn is_part(p: Seq<char>) -> bool {
    p.len() > 0 && p != "."@
}

pub open spec fn is_absolute(s: Seq<char>) -> bool {
    s.len() > 0 && s[0] == '/'
}

/// The components of a path: the root of an absolute path, the dot that a relative one starts
/// with, and every part that names something.
pub open spec fn components(s: Seq<char>) -> Seq<Seq<char>> {
    let parts = split_on(s, '/');
    let head = if is_absolute(s) {
        seq!["/"@]
    } else if parts[0] == "."@ {
        seq!["."@]
    } else {
        Seq::<Seq<char>>::empty()
    };
    head + parts.filter(|p: Seq<char>| is_part(p))
}

/// The path `p` is `base` or lies below it.
pub open spec fn path_within(p: Seq<char>, base: Seq<char>) -> bool {
    components(base).is_prefix_of(components(p))
}

pub fn is_absolute_path(s: &str) -> (r: bool)
    ensures
        r == is_absolute(s@),
{
    let v = chars_of(s);
    v.len() > 0 && v[0] == '/'
}

pub fn path_components(s: &str) -> (r: Vec<String>)
    ensures
        views(r@) == components(s@),
{
    let ghost keep = |p: Seq<char>| is_part(p);
    let parts = str_split(s, '/');
    let mut r: Vec<String> = Vec::new();
    proof {
        reveal_strlit(".");
        assert(views(parts@)[0] == parts@[0]@);
    }
    assert(views(r@) =~= Seq::<Seq<char>>::empty());
    if is_absolute_path(s) {
        push_copy(&mut r, "/");
    } else if str_eq(parts[0].as_str(), ".") {
        push_copy(&mut r, ".");
    }
    let ghost head = views(r@);
    let mut i: usize = 0;
    assert(head =~= head + views(parts@).take(0).filter(keep));
    while i < parts.len()
        invariant
            i <= parts@.len(),
            keep == (|p: Seq<char>| is_part(p)),
            views(r@) == head + views(parts@).take(i as int).filter(keep),
        decreases parts@.len() - i,
    {
        let ghost done = views(parts@).take(i as int).filter(keep);
        proof {
            lemma_filter_step(views(parts@), i as int, keep);
            assert(views(parts@)[i as int] == parts@[i as int]@);
            assert(head + done.push(parts@[i as int]@) =~= (head + done).push(parts@[i as int]@));
        }
        let part = parts[i].as_str();
        if !part.is_empty() && !str_eq(part, ".") {
            push_copy(&mut r, part);
        }
        i += 1;
    }
    assert(views(parts@).take(i as int) =~= views(parts@));
    r
}

/// Whether one list of components starts with another.
pub fn components_within(a: &Vec<String>, b: &Vec<String>) -> (r: bool)
    ensures
        r == views(b@).is_prefix_of(views(a@)),
{
    if b.len() > a.len() {
        return false;
    }
    let mut i: usize = 0;
    while i < b.len()
        invariant
            i <= b@.len() <= a@.len(),
            forall|k: int| 0 <= k < i ==> (#[trigger] b@[k])@ == a@[k]@,
        decreases b@.len() - i,
    {
        if !str_eq(a[i].as_str(), b[i].as_str()) {
            assert(views(b@)[i as int] != views(a@).subrange(0, b@.len() as int)[i as int]);
            return false;
        }
        i += 1;
    }
    assert(views(b@) =~= views(a@).subrange(0, b@.len() as int));
    true
}

/// Whether the path `p` is `base` or lies below it.
pub fn path_starts_with(p: &str, base: &str) -> (r: bool)
    ensures
        r == path_within(p@, base@),
{
    components_within(&path_components(p), &path_components(base))
}

/// Every path lies within itself.
pub proof fn law_within_itself(p: Seq<char>)
    ensures
        path_within(p, p),
{
    assert(components(p) =~= components(p).subrange(0, components(p).len() as int));
}

/// What lies within a path lies within all that the path lies within.
pub proof fn law_within_is_transitive(p: Seq<char>, q: Seq<char>, r: Seq<char>)
    requires
        path_within(p, q),
        path_within(q, r),
    ensures
        path_within(p, r),
{
    assert(components(r) =~= components(p).subrange(0, components(r).len() as int)) by {
        assert forall|i: int| 0 <= i < components(r).len() implies components(r)[i] == components(
            p,
        ).subrange(0, components(r).len() as int)[i] by {
            assert(components(r)[i] == components(q).subrange(0, components(r).len() as int)[i]);
            assert(components(q)[i] == components(p).subrange(0, components(q).len() as int)[i]);
        }
    }
}

/// A path with another appended; an absolute one takes its place.
pub open spec fn joined(base: Seq<char>, tail: Seq<char>) -> Seq<char> {
    if is_absolute(tail) {
        tail
    } else if base.len() == 0 || base.last() == '/' {
        base + tail
    } else {
        base + "/"@ + tail
    }
}

pub fn path_join(base: &str, tail: &str) -> (r: String)
    ensures
        r@ == joined(base@, tail@),
{
    if is_absolute_path(tail) {
        return copy_str(tail);
    }
    let v = chars_of(base);
    if v.len() == 0 || v[v.len() - 1] == '/' {
        concat2(base, tail)
    } else {
        concat3(base, "/", tail)
    }
}

/// The last component of a path, where it names something.
pub open spec fn file_name(s: Seq<char>) -> Option<Seq<char>> {
    let c = components(s);
    if c.len() == 0 || c.last() == "/"@ || c.last() == "."@ || c.last() == ".."@ {
        None
    } else {
        Some(c.last())
    }
}

pub fn path_file_name(s: &str) -> (r: Option<String>)
    ensures
        opt_view(r) == file_name(s@),
{
    let c = path_components(s);
    assert(views(c@).len() == c@.len());
    if c.len() == 0 {
        return None;
    }
    let last = c[c.len() - 1].as_str();
    assert(views(c@).last() == last@);
    if str_eq(last, "/") || str_eq(last, ".") || str_eq(last, "..") {
        None
    } else {
        Some(copy_str(last))
    }
}

proof fn lemma_split_joined(a: Seq<char>, b: Seq<char>)
    ensures
        split_on(a + "/"@ + b, '/') == split_on(a, '/') + split_on(b, '/'),
    decreases a.len(),
{
    reveal_strlit("/");
    let s = a + "/"@ + b;
    lemma_first_index(a, '/');
    let i = first_index(a, '/');
    if i < a.len() {
        assert(s[i] == '/');
        assert forall|k: int| 0 <= k < i implies s[k] != '/' by {
            assert(s[k] == a[k]);
        }
        lemma_first_index_is(s, '/', i);
        assert(s.take(i) =~= a.take(i));
        assert(s.skip(i + 1) =~= a.skip(i + 1) + "/"@ + b);
        lemma_split_joined(a.skip(i + 1), b);
        assert(seq![a.take(i)] + (split_on(a.skip(i + 1), '/') + split_on(b, '/')) =~= (seq![
            a.take(i),
        ] + split_on(a.skip(i + 1), '/')) + split_on(b, '/'));
    } else {
        assert(s[a.len() as int] == '/');
        assert forall|k: int| 0 <= k < a.len() implies s[k] != '/' by {
            assert(s[k] == a[k]);
        }
        lemma_first_index_is(s, '/', a.len() as int);
        assert(s.take(a.len() as int) =~= a);
        assert(s.skip(a.len() as int + 1) =~= b);
    }
}

proof fn lemma_split_not_empty(s: Seq<char>)
    ensures
        split_on(s, '/').len() > 0,
{
    lemma_first_index(s, '/');
}

proof fn lemma_filter_concat(a: Seq<Seq<char>>, b: Seq<Seq<char>>, keep: spec_fn(Seq<char>) -> bool)
    ensures
        (a + b).filter(keep) == a.filter(keep) + b.filter(keep),
    decreases b.len(),
{
    reveal(Seq::filter);
    if b.len() == 0 {
        assert(a + b =~= a);
        assert(a.filter(keep) + b.filter(keep) =~= a.filter(keep));
    } else {
        assert((a + b).drop_last() =~= a + b.drop_last());
        lemma_filter_concat(a, b.drop_last(), keep);
        assert((a.filter(keep) + b.drop_last().filter(keep)).push(b.last()) =~= a.filter(keep)
            + b.drop_last().filter(keep).push(b.last()));
    }
}

/// The components of two texts with a slash between them: those of the first, then every part of
/// the second that names something.
proof fn lemma_components_joined(a: Seq<char>, b: Seq<char>)
    requires
        a.len() > 0,
    ensures
        components(a + "/"@ + b) == components(a) + split_on(b, '/').filter(
            |p: Seq<char>| is_part(p),
        ),
{
    let keep = |p: Seq<char>| is_part(p);
    let s = a + "/"@ + b;
    lemma_split_joined(a, b);
    lemma_split_not_empty(a);
    lemma_filter_concat(split_on(a, '/'), split_on(b, '/'), keep);
    assert(s[0] == a[0]);
    assert(split_on(s, '/')[0] == split_on(a, '/')[0]);
    assert(components(s) =~= components(a) + split_on(b, '/').filter(keep));
}

/// What is appended to a path as a relative one lies within it.
pub proof fn law_joined_is_within(base: Seq<char>, tail: Seq<char>)
    requires
        !is_absolute(tail),
    ensures
        path_within(joined(base, tail), base),
{
    let c = components(base);
    if base.len() == 0 {
        lemma_no_components();
        assert(base =~= Seq::<char>::empty());
        assert(components(joined(base, tail)).subrange(0, 0) =~= c);
    } else if base.last() == '/' {
        lemma_joined_behind_slash(base, tail);
    } else {
        lemma_components_joined(base, tail);
        assert(components(joined(base, tail)).subrange(0, c.len() as int) =~= c);
    }
}

proof fn lemma_no_components()
    ensures
        components(Seq::<char>::empty()) == Seq::<Seq<char>>::empty(),
{
    reveal_strlit(".");
    let none = Seq::<char>::empty();
    let keep = |p: Seq<char>| is_part(p);
    lemma_first_index_is(none, '/', 0);
    let parts = split_on(none, '/');
    assert(parts =~= seq![none]);
    lemma_filter_none(parts, keep);
    assert(components(none) =~= Seq::<Seq<char>>::empty());
}

proof fn lemma_joined_behind_slash(base: Seq<char>, tail: Seq<char>)
    requires
        !is_absolute(tail),
        base.len() > 0,
        base.last() == '/',
    ensures
        path_within(joined(base, tail), base),
{
    reveal_strlit("/");
    let keep = |p: Seq<char>| is_part(p);
    let c = components(base);
    let front = base.drop_last();
    assert(base =~= front + "/"@ + Seq::<char>::empty());
    assert(joined(base, tail) =~= front + "/"@ + tail);
    lemma_first_index_is(Seq::<char>::empty(), '/', 0);
    let nothing = split_on(Seq::<char>::empty(), '/');
    assert(nothing =~= seq![Seq::<char>::empty()]);
    assert(!keep(nothing[0]));
    lemma_filter_none(nothing, keep);
    assert(nothing.filter(keep) =~= Seq::<Seq<char>>::empty());
    if front.len() > 0 {
        lemma_components_joined(front, tail);
        lemma_components_joined(front, Seq::empty());
        assert(components(joined(base, tail)).subrange(0, c.len() as int) =~= c);
    } else {
        lemma_split_joined(front, tail);
        lemma_split_joined(front, Seq::empty());
        assert(front =~= Seq::<char>::empty());
        assert(split_on(front, '/') =~= seq![Seq::<char>::empty()]);
        lemma_filter_concat(split_on(front, '/'), split_on(tail, '/'), keep);
        lemma_filter_concat(split_on(front, '/'), nothing, keep);
        assert(split_on(front, '/') =~= nothing);
        assert(base[0] == '/');
        assert(joined(base, tail)[0] == '/');
        assert(components(joined(base, tail)).subrange(0, c.len() as int) =~= c);
    }
}

/// Two texts that spell the same path.
pub open spec fn same_path(a: Seq<char>, b: Seq<char>) -> bool {
    components(a) == components(b)
}

/// A list spells a path.
pub open spec fn lists_path(paths: Seq<Seq<char>>, p: Seq<char>) -> bool {
    exists|i: int| 0 <= i < paths.len() && same_path(#[trigger] paths[i], p)
}

/// A list with each path of another appended that it does not spell yet.
pub open spec fn union_paths(paths: Seq<Seq<char>>, more: Seq<Seq<char>>) -> Seq<Seq<char>>
    decreases more.len(),
{
    if more.len() == 0 {
        paths
    } else {
        let u = union_paths(paths, more.drop_last());
        if lists_path(u, more.last()) {
            u
        } else {
            u.push(more.last())
        }
    }
}

pub fn is_same_path(a: &str, b: &str) -> (r: bool)
    ensures
        r == same_path(a@, b@),
{
    strings_eq(&path_components(a), &path_components(b))
}

pub fn contains_path(paths: &Vec<String>, p: &str) -> (r: bool)
    ensures
        r == lists_path(views(paths@), p@),
{
    let mut i: usize = 0;
    while i < paths.len()
        invariant
            i <= paths@.len(),
            forall|k: int| 0 <= k < i ==> !same_path(#[trigger] views(paths@)[k], p@),
        decreases paths@.len() - i,
    {
        assert(views(paths@)[i as int] == paths@[i as int]@);
        if is_same_path(paths[i].as_str(), p) {
            return true;
        }
        i += 1;
    }
    false
}

pub fn push_new_paths(paths: &mut Vec<String>, more: &Vec<String>)
    ensures
        views(final(paths)@) == union_paths(views(old(paths)@), views(more@)),
{
    let ghost start = views(paths@);
    let ghost m = views(more@);
    let mut i: usize = 0;
    assert(m.take(0) =~= Seq::<Seq<char>>::empty());
    while i < more.len()
        invariant
            i <= more@.len(),
            m == views(more@),
            views(paths@) == union_paths(start, m.take(i as int)),
        decreases more@.len() - i,
    {
        proof {
            assert(m.take(i + 1).drop_last() =~= m.take(i as int));
            assert(m.take(i + 1).last() == more@[i as int]@);
        }
        if !contains_path(paths, more[i].as_str()) {
            push_copy(paths, more[i].as_str());
        }
        i += 1;
    }
    assert(m.take(i as int) =~= m);
}

/// The union spells exactly the paths of both lists, and starts with the first list.
pub proof fn law_union_spells_both(paths: Seq<Seq<char>>, more: Seq<Seq<char>>, p: Seq<char>)
    ensures
        lists_path(union_paths(paths, more), p) <==> lists_path(paths, p) || lists_path(more, p),
        paths.is_prefix_of(union_paths(paths, more)),
    decreases more.len(),
{
    if more.len() == 0 {
        assert(paths.subrange(0, paths.len() as int) =~= paths);
    } else {
        let front = more.drop_last();
        let u = union_paths(paths, front);
        let r = union_paths(paths, more);
        law_union_spells_both(paths, front, p);
        law_union_spells_both(paths, front, more.last());
        assert(lists_path(more, p) <==> lists_path(front, p) || same_path(more.last(), p)) by {
            if lists_path(front, p) {
                let i = choose|i: int| 0 <= i < front.len() && same_path(#[trigger] front[i], p);
                assert(same_path(more[i], p));
            }
            if same_path(more.last(), p) {
                assert(same_path(more[more.len() - 1], p));
            }
            if lists_path(more, p) && !same_path(more.last(), p) {
                let i = choose|i: int| 0 <= i < more.len() && same_path(#[trigger] more[i], p);
                assert(same_path(front[i], p));
            }
        }
        assert(lists_path(r, p) <==> lists_path(u, p) || same_path(more.last(), p)) by {
            if lists_path(u, more.last()) {
                if same_path(more.last(), p) {
                    let i = choose|i: int|
                        0 <= i < u.len() && same_path(#[trigger] u[i], more.last());
                    assert(same_path(u[i], p));
                }
            } else {
                if lists_path(u, p) {
                    let i = choose|i: int| 0 <= i < u.len() && same_path(#[trigger] u[i], p);
                    assert(same_path(r[i], p));
                }
                if same_path(more.last(), p) {
                    assert(same_path(r[u.len() as int], p));
                }
                if lists_path(r, p) && !same_path(more.last(), p) {
                    let i = choose|i: int| 0 <= i < r.len() && same_path(#[trigger] r[i], p);
                    assert(same_path(u[i], p));
                }
            }
        }
        assert(paths =~= r.subrange(0, paths.len() as int)) by {
            assert forall|i: int| 0 <= i < paths.len() implies paths[i] == r[i] by {
                assert(paths[i] == u.subrange(0, paths.len() as int)[i]);
            }
        }
    }
}

// ---------------------------------------------------------------------------
// Parents
// ---------------------------------------------------------------------------

/// A path without what at its end names nothing: slashes, and dots behind slashes. The slash of
/// the root stays.
pub open spec fn trim_tail(s: Seq<char>) -> Seq<char>
    decreases s.len(),
{
    if s.len() >= 2 && (s.last() == '/' || s.last() == '.' && s[s.len() - 2] == '/') {
        trim_tail(s.drop_last())
    } else {
        s
    }
}

/// The path above; nothing for the root and for an empty path.
pub open spec fn parent_path(s: Seq<char>) -> Option<Seq<char>> {
    let t = trim_tail(s);
    let i = last_index(t, '/');
    if t.len() == 0 || t == "/"@ {
        None
    } else if i < 0 {
        Some(Seq::empty())
    } else if i == 0 {
        Some("/"@)
    } else {
        Some(trim_tail(t.take(i)))
    }
}

proof fn lemma_trim_tail_at(s: Seq<char>, n: int)
    requires
        0 <= n <= s.len(),
        trim_tail(s) == trim_tail(s.take(n)),
        n < 2 || !(s[n - 1] == '/' || s[n - 1] == '.' && s[n - 2] == '/'),
    ensures
        trim_tail(s) == s.take(n),
{
}

fn chars_trim_tail(v: &[char]) -> (r: Vec<char>)
    ensures
        r@ == trim_tail(v@),
{
    let mut n: usize = v.len();
    assert(v@.take(n as int) =~= v@);
    while n >= 2 && (v[n - 1] == '/' || (v[n - 1] == '.' && v[n - 2] == '/'))
        invariant
            n <= v@.len(),
            trim_tail(v@) == trim_tail(v@.take(n as int)),
        decreases n,
    {
        assert(v@.take(n as int).drop_last() =~= v@.take(n - 1));
        n -= 1;
    }
    proof {
        lemma_trim_tail_at(v@, n as int);
    }
    let r = sub_chars(v, 0, n);
    assert(r@ =~= v@.take(n as int));
    r
}

pub fn path_parent(s: &str) -> (r: Option<String>)
    ensures
        opt_view(r) == parent_path(s@),
{
    let v = chars_of(s);
    let t = chars_trim_tail(&v);
    proof {
        reveal_strlit("/");
        lemma_last_index(t@, '/');
    }
    if t.len() == 0 {
        return None;
    }
    if t.len() == 1 && t[0] == '/' {
        assert(t@ =~= "/"@);
        return None;
    }
    match find_last(&t, '/') {
        None => {
            let r = String::new();
            assert(r@ =~= Seq::<char>::empty());
            Some(r)
        },
        Some(i) => if i == 0 {
            Some(copy_str("/"))
        } else {
            let front = sub_chars(&t, 0, i);
            assert(front@ =~= t@.take(i as int));
            let p = chars_trim_tail(&front);
            Some(from_chars(&p))
        },
    }
}

// ---------------------------------------------------------------------------
// Relative paths
// ---------------------------------------------------------------------------

/// Parts without the first `n` that name something and all before them, and without what names
/// nothing behind those.
pub open spec fn drop_named(parts: Seq<Seq<char>>, n: int) -> Seq<Seq<char>>
    decreases parts.len(),
{
    if parts.len() == 0 {
        parts
    } else if !is_part(parts[0]) {
        drop_named(parts.skip(1), n)
    } else if n > 0 {
        drop_named(parts.skip(1), n - 1)
    } else {
        parts
    }
}

/// A path from below `base`: its text behind the components that `base` has.
pub open spec fn relative_to(p: Seq<char>, base: Seq<char>) -> Seq<char> {
    if components(base).len() == 0 {
        trim_tail(p)
    } else {
        let named = split_on(base, '/').filter(|x: Seq<char>| is_part(x)).len();
        trim_tail(join(drop_named(split_on(p, '/'), named as int), "/"@))
    }
}

pub fn path_relative_to(p: &str, base: &str) -> (r: String)
    ensures
        r@ == relative_to(p@, base@),
{
    let c = path_components(base);
    assert(views(c@).len() == c@.len());
    if c.len() == 0 {
        let v = chars_of(p);
        let t = chars_trim_tail(&v);
        return from_chars(&t);
    }
    let base_parts = str_split(base, '/');
    let named = count_named(&base_parts);
    let parts = str_split(p, '/');
    let rest = skip_named(&parts, named);
    let text = join_strings(&rest, "/");
    let v = chars_of(text.as_str());
    let t = chars_trim_tail(&v);
    from_chars(&t)
}

fn names_something(s: &str) -> (r: bool)
    ensures
        r == is_part(s@),
{
    !s.is_empty() && !str_eq(s, ".")
}

fn count_named(parts: &Vec<String>) -> (n: usize)
    ensures
        n == views(parts@).filter(|x: Seq<char>| is_part(x)).len(),
{
    let ghost keep = |x: Seq<char>| is_part(x);
    let mut n: usize = 0;
    let mut i: usize = 0;
    assert(views(parts@).take(0).filter(keep).len() == 0);
    while i < parts.len()
        invariant
            n <= i <= parts@.len(),
            keep == (|x: Seq<char>| is_part(x)),
            n == views(parts@).take(i as int).filter(keep).len(),
        decreases parts@.len() - i,
    {
        proof {
            lemma_filter_step(views(parts@), i as int, keep);
            assert(views(parts@)[i as int] == parts@[i as int]@);
        }
        if names_something(parts[i].as_str()) {
            n += 1;
        }
        i += 1;
    }
    assert(views(parts@).take(i as int) =~= views(parts@));
    n
}

fn skip_named(parts: &Vec<String>, n: usize) -> (r: Vec<String>)
    ensures
        views(r@) == drop_named(views(parts@), n as int),
{
    let ghost all = views(parts@);
    let mut left: usize = n;
    let mut i: usize = 0;
    assert(all.skip(0) =~= all);
    while i < parts.len() && (left > 0 || !names_something(parts[i].as_str()))
        invariant
            i <= parts@.len(),
            all == views(parts@),
            drop_named(all, n as int) == drop_named(all.skip(i as int), left as int),
        decreases parts@.len() - i,
    {
        proof {
            assert(all.skip(i as int)[0] == parts@[i as int]@);
            assert(all.skip(i as int).skip(1) =~= all.skip(i + 1));
        }
        if names_something(parts[i].as_str()) {
            left -= 1;
        }
        i += 1;
    }
    proof {
        if i < parts@.len() {
            assert(all.skip(i as int)[0] == parts@[i as int]@);
        }
    }
    let mut r: Vec<String> = Vec::new();
    let ghost start = i as int;
    assert(views(r@) =~= all.subrange(start, start));
    while i < parts.len()
        invariant
            start <= i <= parts@.len(),
            0 <= start,
            all == views(parts@),
            views(r@) == all.subrange(start, i as int),
        decreases parts@.len() - i,
    {
        push_copy(&mut r, parts[i].as_str());
        i += 1;
        assert(all.subrange(start, i as int) =~= all.subrange(start, i - 1).push(all[i - 1]));
    }
    assert(all.subrange(start, i as int) =~= all.skip(start));
    r
}

} // verus!
