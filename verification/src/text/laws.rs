//! What the operations on text do to texts that are put together.

use crate::text::{
    decimal, first_index, has_prefix, has_sub, has_suffix, is_space, join, lemma_first_index,
    lemma_first_index_is, lines, occurs_at, split_on, trim, trim_start,
};
use vstd::prelude::*;

verus! {

// ---------------------------------------------------------------------------
// Splitting
// ---------------------------------------------------------------------------

/// A text without the separator is one part.
pub proof fn law_split_without_separator(a: Seq<char>, c: char)
    requires
        !a.contains(c),
    ensures
        split_on(a, c) == seq![a],
{
    lemma_first_index(a, c);
    if 0 <= first_index(a, c) < a.len() {
        assert(a[first_index(a, c)] == c);
        assert(a.contains(c));
    }
}

/// What stands before the first separator is the first part, and the rest is split by itself.
pub proof fn law_split_at_separator(a: Seq<char>, c: char, rest: Seq<char>)
    requires
        !a.contains(c),
    ensures
        split_on(a + seq![c] + rest, c) == seq![a] + split_on(rest, c),
{
    let s = a + seq![c] + rest;
    assert(s[a.len() as int] == c);
    assert forall|i: int| 0 <= i < a.len() implies s[i] != c by {
        assert(a.contains(a[i]));
    }
    lemma_first_index_is(s, c, a.len() as int);
    assert(s.take(a.len() as int) =~= a);
    assert(s.skip(a.len() as int + 1) =~= rest);
}

/// Parts with a separator between them.
pub open spec fn separated(parts: Seq<Seq<char>>, c: char) -> Seq<char>
    decreases parts.len(),
{
    if parts.len() == 0 {
        Seq::empty()
    } else if parts.len() == 1 {
        parts[0]
    } else {
        parts[0] + seq![c] + separated(parts.skip(1), c)
    }
}

/// Splitting takes parts apart that were put together.
pub proof fn law_split_undoes_separated(parts: Seq<Seq<char>>, c: char)
    requires
        parts.len() > 0,
        forall|i: int| 0 <= i < parts.len() ==> !(#[trigger] parts[i]).contains(c),
    ensures
        split_on(separated(parts, c), c) == parts,
    decreases parts.len(),
{
    if parts.len() == 1 {
        law_split_without_separator(parts[0], c);
        assert(seq![parts[0]] =~= parts);
    } else {
        let rest = parts.skip(1);
        assert forall|i: int| 0 <= i < rest.len() implies !(#[trigger] rest[i]).contains(c) by {
            assert(rest[i] == parts[i + 1]);
        }
        law_split_undoes_separated(rest, c);
        law_split_at_separator(parts[0], c, separated(rest, c));
        assert(seq![parts[0]] + rest =~= parts);
    }
}

/// The last part stands behind the others and a separator.
pub proof fn law_separated_at_the_end(parts: Seq<Seq<char>>, c: char)
    requires
        parts.len() >= 2,
    ensures
        separated(parts, c) == separated(parts.drop_last(), c) + seq![c] + parts.last(),
    decreases parts.len(),
{
    let rest = parts.skip(1);
    let front = parts.drop_last();
    if parts.len() == 2 {
        assert(separated(rest, c) == parts[1]);
        assert(separated(front, c) == parts[0]);
    } else {
        law_separated_at_the_end(rest, c);
        assert(front.skip(1) =~= rest.drop_last());
        assert(rest.last() == parts.last());
        assert(separated(parts, c) == parts[0] + seq![c] + separated(rest, c));
        assert(separated(front, c) == parts[0] + seq![c] + separated(rest.drop_last(), c));
        assert(separated(parts, c) =~= separated(front, c) + seq![c] + parts.last());
    }
}

/// Joining puts what joins between neighbours, and nowhere else.
pub proof fn law_joined_is_separated(parts: Seq<Seq<char>>, c: char)
    ensures
        join(parts, seq![c]) == separated(parts, c),
    decreases parts.len(),
{
    if parts.len() >= 2 {
        law_separated_at_the_end(parts, c);
        law_joined_is_separated(parts.drop_last(), c);
    }
}

/// A text begins with another, ends with it or has it inside exactly where it is that other text
/// with something put behind it, before it or around it.
pub proof fn law_parts_of_texts(s: Seq<char>, p: Seq<char>)
    ensures
        has_prefix(s, p) <==> exists|b: Seq<char>| s == #[trigger] (p + b),
        has_suffix(s, p) <==> exists|a: Seq<char>| s == #[trigger] (a + p),
        has_sub(s, p) <==> exists|a: Seq<char>, b: Seq<char>| s == #[trigger] (a + p + b),
{
    let n = p.len() as int;
    if has_prefix(s, p) {
        assert(s =~= p + s.skip(n));
    }
    if exists|b: Seq<char>| s == #[trigger] (p + b) {
        let b = choose|b: Seq<char>| s == #[trigger] (p + b);
        assert((p + b).subrange(0, n) =~= p);
    }
    if has_suffix(s, p) {
        assert(s =~= s.take(s.len() - n) + p);
    }
    if exists|a: Seq<char>| s == #[trigger] (a + p) {
        let a = choose|a: Seq<char>| s == #[trigger] (a + p);
        assert((a + p).subrange(a.len() as int, a.len() + n) =~= p);
    }
    if has_sub(s, p) {
        let i = choose|i: int| occurs_at(s, p, i);
        assert(s =~= s.take(i) + p + s.skip(i + n));
    }
    if exists|a: Seq<char>, b: Seq<char>| s == #[trigger] (a + p + b) {
        let (a, b) = choose|a: Seq<char>, b: Seq<char>| s == #[trigger] (a + p + b);
        assert((a + p + b).subrange(a.len() as int, a.len() + n) =~= p);
        assert(occurs_at(s, p, a.len() as int));
    }
}

/// The first line of a text goes up to its first line feed, without a carriage return before it.
pub proof fn law_first_line(a: Seq<char>, rest: Seq<char>)
    requires
        !a.contains('\n'),
    ensures
        a.len() == 0 || a.last() != '\r' ==> lines(a + seq!['\n'] + rest) == seq![a] + lines(rest),
        lines(a + seq!['\r', '\n'] + rest) == seq![a] + lines(rest),
        a.len() > 0 ==> lines(a) == seq![a],
{
    let s = a + seq!['\n'] + rest;
    let n = a.len() as int;
    assert(s[n] == '\n');
    assert forall|i: int| 0 <= i < n implies s[i] != '\n' by {
        assert(a.contains(a[i]));
    }
    lemma_first_index_is(s, '\n', n);
    assert(s.take(n) =~= a);
    assert(s.skip(n + 1) =~= rest);
    let t = a + seq!['\r', '\n'] + rest;
    assert(t[n + 1] == '\n' && t[n] == '\r');
    assert forall|i: int| 0 <= i < n + 1 implies t[i] != '\n' by {
        if i < n {
            assert(a.contains(a[i]));
        }
    }
    lemma_first_index_is(t, '\n', n + 1);
    assert(t.take(n + 1).drop_last() =~= a);
    assert(t.take(n + 1).last() == '\r');
    assert(t.skip(n + 2) =~= rest);
    lemma_first_index(a, '\n');
    if 0 <= first_index(a, '\n') < a.len() {
        assert(a.contains(a[first_index(a, '\n')]));
    }
}

/// White space around a text is cut off, and none inside it.
pub proof fn law_trim_cuts_white_space(before: Seq<char>, s: Seq<char>, after: Seq<char>)
    requires
        forall|i: int| 0 <= i < before.len() ==> is_space(#[trigger] before[i]),
        forall|i: int| 0 <= i < after.len() ==> is_space(#[trigger] after[i]),
        s.len() > 0,
        !is_space(s[0]),
        !is_space(s.last()),
    ensures
        trim(before + s + after) == s,
    decreases before.len() + after.len(),
{
    let t = before + s + after;
    if before.len() > 0 {
        assert(is_space(t[0])) by {
            assert(t[0] == before[0]);
        }
        let rest = before.skip(1);
        assert forall|i: int| 0 <= i < rest.len() implies is_space(#[trigger] rest[i]) by {
            assert(rest[i] == before[i + 1]);
        }
        law_trim_cuts_white_space(rest, s, after);
        assert(t.skip(1) =~= rest + s + after);
    } else if after.len() > 0 {
        let front = after.drop_last();
        assert forall|i: int| 0 <= i < front.len() implies is_space(#[trigger] front[i]) by {
            assert(front[i] == after[i]);
        }
        law_trim_cuts_white_space(before, s, front);
        let u = before + s + front;
        assert(t.drop_last() =~= u);
        assert(t[0] == s[0] && u[0] == s[0]);
        assert(trim_start(t) == t);
        assert(trim_start(u) == u);
        assert(is_space(t.last())) by {
            assert(t.last() == after.last());
            assert(is_space(after[after.len() - 1]));
        }
    } else {
        assert(t =~= s);
    }
}

/// Numbers are written in decimal: one digit for a number below ten, and else the digits of the tens
/// with that of the ones behind them.
pub proof fn law_decimal(n: nat)
    ensures
        n < 10 ==> decimal(n) == seq![('0' as u32 + n) as char],
        n >= 10 ==> decimal(n) == decimal(n / 10).push(('0' as u32 + n % 10) as char),
{
}

} // verus!
