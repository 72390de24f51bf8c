//! Which texts are loopback addresses.

use crate::loopback::{
    all_zero_groups, gap_index, groups_to_one, is_loopback_v4, is_loopback_v6, is_octet,
    is_one_group, is_zero_group, zero_groups,
};
use crate::text::laws::{law_split_undoes_separated, separated};
use crate::text::{
    decimal, has_prefix, is_digit, law_parse_decimal, lemma_decimal_digits, lemma_first_index,
    split_on,
};
use vstd::prelude::*;

verus! {

/// An address of four numbers, as it is written.
pub open spec fn dotted(a: nat, b: nat, c: nat, d: nat) -> Seq<char> {
    separated(seq![decimal(a), decimal(b), decimal(c), decimal(d)], '.')
}

proof fn lemma_number(n: nat)
    requires
        n <= 255,
    ensures
        is_octet(decimal(n)),
        !decimal(n).contains('.'),
{
    lemma_decimal_digits(n);
    law_parse_decimal(n, 255);
    let s = decimal(n);
    assert forall|k: int| 0 <= k < s.len() implies s[k] != '.' && s[k] != '+' by {
        assert(is_digit(s[k]));
    }
    if n < 10 {
        assert(s.len() == 1);
    } else if n < 100 {
        assert(decimal(n / 10).len() == 1);
        assert(s.len() == 2);
        assert(s[0] == decimal(n / 10)[0]);
    } else {
        assert(decimal(n / 100).len() == 1);
        assert((n / 10) / 10 == n / 100);
        assert(decimal(n / 10).len() == 2);
        assert(s.len() == 3);
        assert(decimal(n / 10)[0] == decimal(n / 100)[0]);
        assert(s[0] == decimal(n / 100)[0]);
    }
}

proof fn lemma_first_number()
    ensures
        decimal(127) == seq!['1', '2', '7'],
{
    assert(decimal(1) =~= seq!['1']);
    assert(decimal(12) =~= decimal(1).push('2'));
    assert(decimal(127) =~= decimal(12).push('7'));
}

/// An address of four numbers is a loopback address exactly where the first is 127.
pub proof fn law_four_numbers(a: nat, b: nat, c: nat, d: nat)
    requires
        a <= 255,
        b <= 255,
        c <= 255,
        d <= 255,
    ensures
        is_loopback_v4(dotted(a, b, c, d)) <==> a == 127,
{
    let parts = seq![decimal(a), decimal(b), decimal(c), decimal(d)];
    lemma_number(a);
    lemma_number(b);
    lemma_number(c);
    lemma_number(d);
    assert forall|i: int| 0 <= i < parts.len() implies !(#[trigger] parts[i]).contains('.') by {
        if i == 0 {
        } else if i == 1 {
        } else if i == 2 {
        } else {
        }
    }
    law_split_undoes_separated(parts, '.');
    lemma_first_number();
    lemma_decimal_digits(a);
    lemma_decimal_digits(127);
}

/// Nothing but four numbers with dots between them, of which the first is 127, is a loopback address
/// of that form.
pub proof fn law_other_texts(s: Seq<char>)
    ensures
        is_loopback_v4(s) ==> has_prefix(s, seq!['1', '2', '7', '.']) && split_on(s, '.').len() == 4,
{
    if is_loopback_v4(s) {
        lemma_first_index(s, '.');
        let i = crate::text::first_index(s, '.');
        let first = split_on(s, '.')[0];
        if i < s.len() {
            assert(first == s.take(i));
            assert(i == 3);
            assert(s[0] == first[0] && s[1] == first[1] && s[2] == first[2]);
            assert(s.subrange(0, 4) =~= seq!['1', '2', '7', '.']);
        }
    }
}

/// Groups of an address that are all zero, written with one to four digits each.
pub open spec fn zeros(groups: Seq<Seq<char>>) -> bool {
    forall|i: int|
        0 <= i < groups.len() ==> 1 <= (#[trigger] groups[i]).len() <= 4 && forall|k: int|
            0 <= k < groups[i].len() ==> #[trigger] groups[i][k] == '0'
}

/// A group that is one: up to three zeros and a one.
pub open spec fn one(g: Seq<char>) -> bool {
    1 <= g.len() <= 4 && g.last() == '1' && forall|k: int|
        0 <= k < g.len() - 1 ==> #[trigger] g[k] == '0'
}

proof fn lemma_groups(groups: Seq<Seq<char>>)
    requires
        zeros(groups),
    ensures
        all_zero_groups(groups),
        forall|i: int| 0 <= i < groups.len() ==> !(#[trigger] groups[i]).contains(':'),
{
    assert forall|i: int| 0 <= i < groups.len() implies is_zero_group(#[trigger] groups[i])
        && !groups[i].contains(':') by {
        let g = groups[i];
        assert(forall|k: int| 0 <= k < g.len() ==> g[k] == '0');
    }
}

proof fn lemma_to_one(groups: Seq<Seq<char>>, last: Seq<char>)
    requires
        zeros(groups),
        one(last),
    ensures
        groups_to_one(separated(groups.push(last), ':')) == Some(groups.len() + 1),
{
    let all = groups.push(last);
    lemma_groups(groups);
    assert(!last.contains(':')) by {
        assert(forall|k: int| 0 <= k < last.len() ==> last[k] == '0' || last[k] == '1');
    }
    assert forall|i: int| 0 <= i < all.len() implies !(#[trigger] all[i]).contains(':') by {
        if i < groups.len() {
            assert(all[i] == groups[i]);
        }
    }
    law_split_undoes_separated(all, ':');
    assert(all.drop_last() =~= groups);
    if last.len() > 1 {
        assert(is_zero_group(last.drop_last()));
    }
    assert(is_one_group(all.last()));
}

/// Two colons stand together at a position.
spec fn gap_at(s: Seq<char>, i: int) -> bool {
    i + 1 < s.len() && s[i] == ':' && s[i + 1] == ':'
}

proof fn lemma_gap_is(s: Seq<char>, k: int)
    requires
        0 <= k <= s.len(),
        forall|i: int| 0 <= i < k ==> !(#[trigger] gap_at(s, i)),
        k < s.len() ==> k + 1 < s.len() && s[k] == ':' && s[k + 1] == ':',
    ensures
        gap_index(s) == k,
    decreases s.len(),
{
    if s.len() >= 2 {
        if k > 0 {
            let t = s.skip(1);
            assert(!gap_at(s, 0));
            assert forall|i: int| 0 <= i < k - 1 implies !(#[trigger] gap_at(t, i)) by {
                assert(!gap_at(s, i + 1));
            }
            if k < s.len() {
                assert(t[k - 1] == s[k] && t[k] == s[k + 1]);
            }
            lemma_gap_is(t, k - 1);
        }
    }
}

proof fn lemma_no_gap(groups: Seq<Seq<char>>)
    requires
        forall|i: int|
            0 <= i < groups.len() ==> (#[trigger] groups[i]).len() > 0 && !groups[i].contains(':'),
        groups.len() > 0,
    ensures
        ({
            let s = separated(groups, ':');
            &&& s.len() > 0
            &&& s[0] != ':'
            &&& s.last() != ':'
            &&& forall|i: int| 0 <= i ==> !(#[trigger] gap_at(s, i))
        }),
    decreases groups.len(),
{
    let g = groups[0];
    let s = separated(groups, ':');
    assert forall|k: int| 0 <= k < g.len() implies #[trigger] g[k] != ':' by {
        assert(g.contains(g[k]));
    }
    if groups.len() > 1 {
        let rest = groups.skip(1);
        assert(forall|i: int| 0 <= i < rest.len() ==> #[trigger] rest[i] == groups[i + 1]);
        lemma_no_gap(rest);
        let t = separated(rest, ':');
        assert(s == g + seq![':'] + t);
        assert(s.last() == t.last());
        assert forall|i: int| 0 <= i implies !(#[trigger] gap_at(s, i)) by {
            if i < g.len() {
                assert(s[i] == g[i]);
            } else if i == g.len() {
                assert(s[i + 1] == t[0]);
            } else {
                assert(!gap_at(t, i - g.len() - 1));
            }
        }
    }
}

/// Seven groups of zeros and then a one are a loopback address, however many digits are written; with
/// fewer or more groups of zeros they are none.
pub proof fn law_eight_groups(groups: Seq<Seq<char>>, last: Seq<char>)
    requires
        zeros(groups),
        one(last),
    ensures
        is_loopback_v6(separated(groups.push(last), ':')) <==> groups.len() == 7,
{
    let all = groups.push(last);
    lemma_to_one(groups, last);
    lemma_groups(groups);
    assert(!last.contains(':')) by {
        assert(forall|k: int| 0 <= k < last.len() ==> last[k] == '0' || last[k] == '1');
    }
    assert forall|i: int| 0 <= i < all.len() implies (#[trigger] all[i]).len() > 0
        && !all[i].contains(':') by {
        if i < groups.len() {
            assert(all[i] == groups[i]);
        }
    }
    lemma_no_gap(all);
    let s = separated(all, ':');
    lemma_gap_is(s, s.len() as int);
}

/// Two colons together stand for the groups of zeros that are missing, of which there is at least
/// one.
pub proof fn law_groups_left_out(before: Seq<Seq<char>>, after: Seq<Seq<char>>, last: Seq<char>)
    requires
        zeros(before),
        zeros(after),
        one(last),
    ensures
        is_loopback_v6(separated(before, ':') + seq![':', ':'] + separated(after.push(last), ':'))
            <==> before.len() + after.len() + 1 <= 7,
{
    let head = separated(before, ':');
    let tail = separated(after.push(last), ':');
    let s = head + seq![':', ':'] + tail;
    lemma_to_one(after, last);
    let k = head.len() as int;
    assert(s[k] == ':' && s[k + 1] == ':');
    if before.len() > 0 {
        lemma_groups(before);
        assert forall|i: int| 0 <= i < before.len() implies (#[trigger] before[i]).len() > 0
            && !before[i].contains(':') by {}
        lemma_no_gap(before);
        law_split_undoes_separated(before, ':');
        assert forall|i: int| 0 <= i < k implies !(#[trigger] gap_at(s, i)) by {
            assert(s[i] == head[i]);
            if i + 1 < k {
                assert(!gap_at(head, i));
                assert(s[i + 1] == head[i + 1]);
            }
        }
    }
    lemma_gap_is(s, k);
    assert(s.take(k) =~= head);
    assert(s.skip(k + 2) =~= tail);
    assert(zero_groups(head) == Some(before.len()));
}

} // verus!
