//! Paths that are put together from parts, and what is read out of them.

use crate::paths::{
    components, drop_named, file_name, is_absolute, is_part, joined, parent_path, path_within,
    relative_to, same_path, trim_tail,
};
use crate::text::laws::{
    law_joined_is_separated, law_separated_at_the_end, law_split_at_separator,
    law_split_undoes_separated, separated,
};
use crate::text::{join, lemma_last_index_is, split_on};
use vstd::prelude::*;

verus! {

/// Parts of which each names something and has no slash in it.
pub open spec fn plain(parts: Seq<Seq<char>>) -> bool {
    forall|i: int|
        0 <= i < parts.len() ==> (#[trigger] parts[i]).len() > 0 && parts[i] != seq!['.']
            && !parts[i].contains('/')
}

/// The absolute path with some parts.
pub open spec fn rooted(parts: Seq<Seq<char>>) -> Seq<char> {
    seq!['/'] + separated(parts, '/')
}

proof fn lemma_all_kept(parts: Seq<Seq<char>>)
    requires
        plain(parts),
    ensures
        parts.filter(|p: Seq<char>| is_part(p)) == parts,
    decreases parts.len(),
{
    reveal(Seq::filter);
    reveal_strlit(".");
    assert("."@ =~= seq!['.']);
    if parts.len() > 0 {
        let front = parts.drop_last();
        assert(forall|i: int| 0 <= i < front.len() ==> #[trigger] front[i] == parts[i]);
        lemma_all_kept(front);
        assert(front.push(parts.last()) =~= parts);
    }
}

proof fn lemma_filter_behind<A>(x: A, s: Seq<A>, keep: spec_fn(A) -> bool)
    requires
        !keep(x),
    ensures
        (seq![x] + s).filter(keep) == s.filter(keep),
    decreases s.len(),
{
    reveal(Seq::filter);
    let all = seq![x] + s;
    if s.len() > 0 {
        lemma_filter_behind(x, s.drop_last(), keep);
        assert(all.drop_last() =~= seq![x] + s.drop_last());
        assert(all.last() == s.last());
    } else {
        assert(all.drop_last() =~= s);
        assert(all.last() == x);
    }
}

proof fn lemma_kept_behind(parts: Seq<Seq<char>>)
    requires
        plain(parts),
    ensures
        (seq![Seq::<char>::empty()] + parts).filter(|p: Seq<char>| is_part(p)) == parts,
{
    lemma_all_kept(parts);
    lemma_filter_behind(Seq::<char>::empty(), parts, |p: Seq<char>| is_part(p));
}

proof fn lemma_drop_behind(x: Seq<char>, s: Seq<Seq<char>>, n: int)
    requires
        !is_part(x),
    ensures
        drop_named(seq![x] + s, n) == drop_named(s, n),
{
    let all = seq![x] + s;
    assert(all.skip(1) =~= s);
    assert(all[0] == x);
}

proof fn lemma_split_rooted(parts: Seq<Seq<char>>)
    requires
        plain(parts),
        parts.len() > 0,
    ensures
        split_on(separated(parts, '/'), '/') == parts,
        split_on(rooted(parts), '/') == seq![Seq::<char>::empty()] + parts,
{
    law_split_undoes_separated(parts, '/');
    let none = Seq::<char>::empty();
    law_split_at_separator(none, '/', separated(parts, '/'));
    assert(none + seq!['/'] + separated(parts, '/') =~= rooted(parts));
}

/// A path has the parts that it was put together from, behind the root where it is absolute.
pub proof fn law_components_of_paths(parts: Seq<Seq<char>>)
    requires
        plain(parts),
        parts.len() > 0,
    ensures
        components(separated(parts, '/')) == parts,
        components(rooted(parts)) == seq![seq!['/']] + parts,
        is_absolute(rooted(parts)),
        !is_absolute(separated(parts, '/')),
{
    reveal_strlit("/");
    reveal_strlit(".");
    assert("/"@ =~= seq!['/']);
    assert("."@ =~= seq!['.']);
    lemma_split_rooted(parts);
    lemma_all_kept(parts);
    lemma_kept_behind(parts);
    let s = separated(parts, '/');
    assert(s.len() > 0 && s[0] == parts[0][0]);
    assert(parts[0].contains(parts[0][0]));
    assert(Seq::<Seq<char>>::empty() + parts =~= parts);
    assert(rooted(parts)[0] == '/');
}

/// A path lies below another exactly where it begins with all parts of the other, and two spell the
/// same path exactly where they have the same parts. An absolute path and a relative one never do.
pub proof fn law_paths_below(a: Seq<Seq<char>>, b: Seq<Seq<char>>)
    requires
        plain(a),
        plain(b),
        a.len() > 0,
        b.len() > 0,
    ensures
        path_within(rooted(a), rooted(b)) <==> b.is_prefix_of(a),
        path_within(separated(a, '/'), separated(b, '/')) <==> b.is_prefix_of(a),
        same_path(rooted(a), rooted(b)) <==> a == b,
        same_path(separated(a, '/'), separated(b, '/')) <==> a == b,
        !same_path(rooted(a), separated(b, '/')),
        !path_within(rooted(a), separated(b, '/')),
        !path_within(separated(a, '/'), rooted(b)),
{
    law_components_of_paths(a);
    law_components_of_paths(b);
    let root = seq!['/'];
    let x = seq![root] + a;
    let y = seq![root] + b;
    assert(x.skip(1) =~= a);
    assert(y.skip(1) =~= b);
    if b.is_prefix_of(a) {
        assert(b =~= a.subrange(0, b.len() as int));
        assert(y =~= x.subrange(0, y.len() as int));
    }
    if y.is_prefix_of(x) {
        assert(y =~= x.subrange(0, y.len() as int));
        assert forall|i: int| 0 <= i < b.len() implies b[i] == a.subrange(0, b.len() as int)[i] by {
            assert(y[i + 1] == x.subrange(0, y.len() as int)[i + 1]);
        }
        assert(b =~= a.subrange(0, b.len() as int));
    }
    assert(root.contains('/')) by {
        assert(root[0] == '/');
    }
    assert(a[0] != root);
    assert(b[0] != root);
    assert(x[0] == root && y[0] == root);
    if b.is_prefix_of(x) {
        assert(b[0] == x.subrange(0, b.len() as int)[0]);
    }
    if y.is_prefix_of(a) {
        assert(y[0] == a.subrange(0, y.len() as int)[0]);
    }
}

proof fn lemma_ends_in_part(s: Seq<char>, last: Seq<char>)
    requires
        last.len() > 0,
        last != seq!['.'],
        !last.contains('/'),
        s.len() >= last.len(),
        s.skip(s.len() - last.len()) == last,
    ensures
        trim_tail(s) == s,
        s.len() > last.len() && s[s.len() - last.len() - 1] == '/' ==> crate::text::last_index(s, '/')
            == s.len() - last.len() - 1,
{
    let d = s.len() - last.len();
    assert(forall|i: int| d <= i < s.len() ==> s[i] == last[i - d] && last.contains(last[i - d]));
    assert(s.last() == last.last());
    assert(s.last() != '/');
    if s.last() == '.' && s.len() >= 2 && s[s.len() - 2] == '/' {
        if last.len() >= 2 {
            assert(s[s.len() - 2] == last[last.len() - 2]);
        } else {
            assert(last =~= seq!['.']);
        }
    }
    if d > 0 && s[d - 1] == '/' {
        lemma_last_index_is(s, '/', d - 1);
    }
}

proof fn lemma_end_of_rooted(parts: Seq<Seq<char>>)
    requires
        plain(parts),
        parts.len() > 0,
    ensures
        ({
            let t = rooted(parts);
            let last = parts.last();
            let d = t.len() - last.len();
            &&& d >= 1
            &&& t.skip(d) == last
            &&& t[d - 1] == '/'
            &&& parts.len() == 1 ==> d == 1
            &&& parts.len() > 1 ==> d > 1 && t.take(d - 1) == rooted(parts.drop_last())
        }),
        separated(parts, '/').skip(separated(parts, '/').len() - parts.last().len())
            == parts.last(),
        separated(parts, '/').len() >= parts.last().len(),
{
    let t = rooted(parts);
    let last = parts.last();
    let d = t.len() - last.len();
    let s = separated(parts, '/');
    if parts.len() > 1 {
        law_separated_at_the_end(parts, '/');
        assert(t =~= rooted(parts.drop_last()) + seq!['/'] + last);
        assert(t.take(d - 1) =~= rooted(parts.drop_last()));
        assert(t[d - 1] == '/');
        assert(t.skip(d) =~= last);
        assert(s.skip(s.len() - last.len()) =~= last);
    } else {
        assert(t =~= seq!['/'] + last);
        assert(t.skip(1) =~= last);
        assert(s == last);
        assert(s.skip(0) =~= last);
    }
}

/// The name of a file is the last part of its path, unless that leads upwards.
pub proof fn law_file_names(parts: Seq<Seq<char>>)
    requires
        plain(parts),
        parts.len() > 0,
    ensures
        parts.last() != seq!['.', '.'] ==> file_name(rooted(parts)) == Some(parts.last())
            && file_name(separated(parts, '/')) == Some(parts.last()),
        parts.last() == seq!['.', '.'] ==> file_name(rooted(parts)) is None && file_name(
            separated(parts, '/'),
        ) is None,
{
    law_components_of_paths(parts);
    reveal_strlit("/");
    reveal_strlit(".");
    reveal_strlit("..");
    assert("/"@ =~= seq!['/']);
    assert("."@ =~= seq!['.']);
    assert(".."@ =~= seq!['.', '.']);
    let last = parts.last();
    assert(components(rooted(parts)).last() == last);
    assert(last != seq!['/']) by {
        if last == seq!['/'] {
            assert(last[0] == '/');
            assert(last.contains('/'));
        }
    }
}

/// The path above an absolute one has all its parts but the last; above one part is the root.
pub proof fn law_parents(parts: Seq<Seq<char>>)
    requires
        plain(parts),
        parts.len() > 0,
    ensures
        parts.len() == 1 ==> parent_path(rooted(parts)) == Some(seq!['/']),
        parts.len() > 1 ==> parent_path(rooted(parts)) == Some(rooted(parts.drop_last())),
        parent_path(seq!['/']) is None,
        parent_path(Seq::<char>::empty()) is None,
{
    reveal_strlit("/");
    assert("/"@ =~= seq!['/']);
    let t = rooted(parts);
    lemma_end_of_rooted(parts);
    lemma_ends_in_part(t, parts.last());
    assert(t.len() > 1);
    if parts.len() > 1 {
        let front = parts.drop_last();
        assert(forall|i: int| 0 <= i < front.len() ==> #[trigger] front[i] == parts[i]);
        lemma_end_of_rooted(front);
        lemma_ends_in_part(rooted(front), front.last());
    }
}

proof fn lemma_drop_named(a: Seq<Seq<char>>, b: Seq<Seq<char>>)
    requires
        plain(a),
        plain(b),
    ensures
        drop_named(a + b, a.len() as int) == b,
    decreases a.len(),
{
    reveal_strlit(".");
    assert("."@ =~= seq!['.']);
    let s = a + b;
    if a.len() == 0 {
        assert(s =~= b);
        if b.len() > 0 {
            assert(b[0].len() > 0);
            assert(is_part(s[0]));
        }
    } else {
        let rest = a.skip(1);
        assert(forall|i: int| 0 <= i < rest.len() ==> #[trigger] rest[i] == a[i + 1]);
        assert(a[0].len() > 0);
        assert(is_part(s[0]));
        assert(s.skip(1) =~= rest + b);
        lemma_drop_named(rest, b);
    }
}

proof fn lemma_plain_sum(a: Seq<Seq<char>>, b: Seq<Seq<char>>)
    requires
        plain(a),
        plain(b),
    ensures
        plain(a + b),
        a.is_prefix_of(a + b),
{
    let s = a + b;
    assert forall|i: int| 0 <= i < s.len() implies (#[trigger] s[i]).len() > 0 && s[i] != seq!['.']
        && !s[i].contains('/') by {
        if i < a.len() {
            assert(s[i] == a[i]);
        } else {
            assert(s[i] == b[i - a.len()]);
        }
    }
    assert(a =~= s.subrange(0, a.len() as int));
}

proof fn lemma_parts_below(a: Seq<Seq<char>>, b: Seq<Seq<char>>)
    requires
        plain(a),
        plain(b),
        a.len() > 0,
    ensures
        split_on(rooted(a), '/').filter(|x: Seq<char>| is_part(x)).len() == a.len(),
        drop_named(split_on(rooted(a + b), '/'), a.len() as int) == b,
{
    let s = a + b;
    lemma_plain_sum(a, b);
    lemma_split_rooted(a);
    lemma_kept_behind(a);
    lemma_split_rooted(s);
    lemma_drop_behind(Seq::<char>::empty(), s, a.len() as int);
    lemma_drop_named(a, b);
}

proof fn lemma_text_of_parts(b: Seq<Seq<char>>)
    requires
        plain(b),
    ensures
        trim_tail(join(b, "/"@)) == separated(b, '/'),
{
    reveal_strlit("/");
    assert("/"@ =~= seq!['/']);
    law_joined_is_separated(b, '/');
    if b.len() > 0 {
        lemma_end_of_rooted(b);
        lemma_ends_in_part(separated(b, '/'), b.last());
    }
}

/// A path below another reads, from there, as the parts that it has more.
pub proof fn law_relative_paths(a: Seq<Seq<char>>, b: Seq<Seq<char>>)
    requires
        plain(a),
        plain(b),
        a.len() > 0,
    ensures
        path_within(rooted(a + b), rooted(a)),
        relative_to(rooted(a + b), rooted(a)) == separated(b, '/'),
{
    lemma_plain_sum(a, b);
    law_paths_below(a + b, a);
    law_components_of_paths(a);
    lemma_parts_below(a, b);
    lemma_text_of_parts(b);
}

/// To append a relative path is to append its parts; an absolute one takes the place of the whole.
pub proof fn law_appended_paths(a: Seq<Seq<char>>, b: Seq<Seq<char>>)
    requires
        plain(a),
        plain(b),
        a.len() > 0,
        b.len() > 0,
    ensures
        joined(rooted(a), separated(b, '/')) == rooted(a) + seq!['/'] + separated(b, '/'),
        joined(rooted(a), rooted(b)) == rooted(b),
        joined(seq!['/'], separated(b, '/')) == rooted(b),
        joined(Seq::<char>::empty(), separated(b, '/')) == separated(b, '/'),
{
    law_components_of_paths(b);
    lemma_end_of_rooted(a);
    reveal_strlit("/");
    assert("/"@ =~= seq!['/']);
    let t = rooted(a);
    let last = a.last();
    assert(t.last() == last.last()) by {
        assert(t.skip(t.len() - last.len()).last() == last.last());
    }
    assert(last.contains(last.last()));
    assert(t.last() != '/');
}

} // verus!
