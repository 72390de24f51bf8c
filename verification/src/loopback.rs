//! Texts that are loopback addresses.

pub mod laws;

use crate::text::{chars_of, chars_split, parse_digits, parse_number, split_on, sub_chars};
use vstd::prelude::*;

verus! {

// ---------------------------------------------------------------------------
// Four numbers
// ---------------------------------------------------------------------------

/// A number of an address: up to 255, in decimal, without a sign and without zeros before it.
pub open spec fn is_octet(p: Seq<char>) -> bool {
    &&& 1 <= p.len() <= 3
    &&& p[0] != '+'
    &&& p.len() == 1 || p[0] != '0'
    &&& parse_number(p, 255) is Some
}

fn octet(p: &[char]) -> (r: bool)
    ensures
        r == is_octet(p@),
{
    p.len() >= 1 && p.len() <= 3 && p[0] != '+' && (p.len() == 1 || p[0] != '0') && parse_digits(
        p,
        255,
    ).is_some()
}

/// Four numbers with dots between them, of which the first is 127.
pub open spec fn is_loopback_v4(s: Seq<char>) -> bool {
    let parts = split_on(s, '.');
    &&& parts.len() == 4
    &&& parts[0] =~= seq!['1', '2', '7']
    &&& is_octet(parts[1]) && is_octet(parts[2]) && is_octet(parts[3])
}

pub fn loopback_v4(s: &str) -> (r: bool)
    ensures
        r == is_loopback_v4(s@),
{
    let v = chars_of(s);
    let parts = chars_split(&v, '.');
    if parts.len() != 4 {
        return false;
    }
    let first = &parts[0];
    let starts = first.len() == 3 && first[0] == '1' && first[1] == '2' && first[2] == '7';
    assert(starts == (first@ =~= seq!['1', '2', '7']));
    starts && octet(&parts[1]) && octet(&parts[2]) && octet(&parts[3])
}

// ---------------------------------------------------------------------------
// Eight groups
// ---------------------------------------------------------------------------

/// A group that is zero: up to four digits.
pub open spec fn is_zero_group(g: Seq<char>) -> bool {
    1 <= g.len() <= 4 && forall|i: int| 0 <= i < g.len() ==> #[trigger] g[i] == '0'
}

/// A group that is one.
pub open spec fn is_one_group(g: Seq<char>) -> bool {
    1 <= g.len() <= 4 && g.last() == '1' && (g.len() == 1 || is_zero_group(g.drop_last()))
}

fn zero_group(g: &[char]) -> (r: bool)
    ensures
        r == is_zero_group(g@),
{
    if g.len() == 0 || g.len() > 4 {
        return false;
    }
    let mut i: usize = 0;
    while i < g.len()
        invariant
            i <= g@.len(),
            1 <= g@.len() <= 4,
            forall|k: int| 0 <= k < i ==> #[trigger] g@[k] == '0',
        decreases g@.len() - i,
    {
        if g[i] != '0' {
            return false;
        }
        i += 1;
    }
    true
}

fn one_group(g: &[char]) -> (r: bool)
    ensures
        r == is_one_group(g@),
{
    if g.len() == 0 || g.len() > 4 || g[g.len() - 1] != '1' {
        return false;
    }
    if g.len() == 1 {
        return true;
    }
    let front = sub_chars(g, 0, g.len() - 1);
    assert(front@ =~= g@.drop_last());
    zero_group(&front)
}

pub open spec fn all_zero_groups(parts: Seq<Seq<char>>) -> bool {
    forall|i: int| 0 <= i < parts.len() ==> is_zero_group(#[trigger] parts[i])
}

/// How many groups a text stands for whose groups are all zero but for the last, which is one;
/// nothing where it is none. The last two groups may be written as four numbers.
pub open spec fn groups_to_one(s: Seq<char>) -> Option<nat> {
    let parts = split_on(s, ':');
    if !all_zero_groups(parts.drop_last()) {
        None
    } else if is_one_group(parts.last()) {
        Some(parts.len())
    } else if parts.last() == "0.0.0.1"@ {
        Some(parts.len() + 1)
    } else {
        None
    }
}

/// How many groups a text stands for that are all zero; the empty text stands for none.
pub open spec fn zero_groups(s: Seq<char>) -> Option<nat> {
    if s.len() == 0 {
        Some(0)
    } else if all_zero_groups(split_on(s, ':')) {
        Some(split_on(s, ':').len())
    } else {
        None
    }
}

/// Where two colons stand together first; the length where they do nowhere.
pub open spec fn gap_index(s: Seq<char>) -> int
    decreases s.len(),
{
    if s.len() < 2 {
        s.len() as int
    } else if s[0] == ':' && s[1] == ':' {
        0
    } else {
        1 + gap_index(s.skip(1))
    }
}

/// Eight groups of up to four hexadecimal digits, all zero but for the last, which is one; two
/// colons together stand for one or more groups that are zero.
pub open spec fn is_loopback_v6(s: Seq<char>) -> bool {
    let i = gap_index(s);
    if i < s.len() {
        match (zero_groups(s.take(i)), groups_to_one(s.skip(i + 2))) {
            (Some(m), Some(n)) => m + n <= 7,
            _ => false,
        }
    } else {
        groups_to_one(s) == Some(8nat)
    }
}

fn find_gap(v: &[char]) -> (r: usize)
    ensures
        r == gap_index(v@),
        r <= v@.len(),
        r < v@.len() ==> r + 2 <= v@.len(),
{
    let mut i: usize = 0;
    assert(v@.skip(0) =~= v@);
    while v.len() - i >= 2
        invariant
            i <= v@.len(),
            gap_index(v@) == i + gap_index(v@.skip(i as int)),
        decreases v@.len() - i,
    {
        proof {
            assert(v@.skip(i as int)[0] == v@[i as int]);
            assert(v@.skip(i as int)[1] == v@[i + 1]);
            assert(v@.skip(i as int).skip(1) =~= v@.skip(i + 1));
        }
        if v[i] == ':' && v[i + 1] == ':' {
            return i;
        }
        i += 1;
    }
    v.len()
}

fn zeros_before(parts: &Vec<Vec<char>>, n: usize) -> (r: bool)
    requires
        n <= parts@.len(),
    ensures
        r == forall|i: int| 0 <= i < n ==> is_zero_group((#[trigger] parts@[i])@),
{
    let mut i: usize = 0;
    while i < n
        invariant
            i <= n <= parts@.len(),
            forall|k: int| 0 <= k < i ==> is_zero_group((#[trigger] parts@[k])@),
        decreases n - i,
    {
        if !zero_group(&parts[i]) {
            assert(!is_zero_group(parts@[i as int]@));
            return false;
        }
        i += 1;
    }
    true
}

fn count_to_one(s: &[char]) -> (r: Option<usize>)
    ensures
        match r {
            Some(n) => groups_to_one(s@) == Some(n as nat),
            None => groups_to_one(s@) is None || groups_to_one(s@)->0 > 8,
        },
{
    let parts = chars_split(s, ':');
    let ghost all = split_on(s@, ':');
    if parts.len() > 8 {
        return None;
    }
    let last = parts.len() - 1;
    let zeros = zeros_before(&parts, last);
    proof {
        if zeros {
            assert forall|i: int| 0 <= i < all.drop_last().len() implies is_zero_group(
                #[trigger] all.drop_last()[i],
            ) by {
                assert(parts@[i]@ == all[i]);
            }
        } else {
            let i = choose|i: int| 0 <= i < last && !is_zero_group((#[trigger] parts@[i])@);
            assert(!is_zero_group(all.drop_last()[i]));
        }
    }
    if !zeros {
        return None;
    }
    let tail = &parts[last];
    assert(tail@ == all.last());
    if one_group(tail) {
        return Some(parts.len());
    }
    let quad = tail.len() == 7 && tail[0] == '0' && tail[1] == '.' && tail[2] == '0' && tail[3]
        == '.' && tail[4] == '0' && tail[5] == '.' && tail[6] == '1';
    proof {
        reveal_strlit("0.0.0.1");
        assert(quad == (tail@ =~= "0.0.0.1"@));
    }
    if quad {
        Some(parts.len() + 1)
    } else {
        None
    }
}

fn count_zeros(s: &[char]) -> (r: Option<usize>)
    ensures
        match r {
            Some(n) => zero_groups(s@) == Some(n as nat),
            None => zero_groups(s@) is None,
        },
{
    if s.len() == 0 {
        return Some(0);
    }
    let parts = chars_split(s, ':');
    let ghost all = split_on(s@, ':');
    let zeros = zeros_before(&parts, parts.len());
    proof {
        if zeros {
            assert forall|i: int| 0 <= i < all.len() implies is_zero_group(#[trigger] all[i]) by {
                assert(parts@[i]@ == all[i]);
            }
        } else {
            let i = choose|i: int|
                0 <= i < parts@.len() && !is_zero_group((#[trigger] parts@[i])@);
            assert(!is_zero_group(all[i]));
        }
    }
    if zeros {
        Some(parts.len())
    } else {
        None
    }
}

pub fn loopback_v6(s: &str) -> (r: bool)
    ensures
        r == is_loopback_v6(s@),
{
    let v = chars_of(s);
    let end: usize = v.len();
    let i = find_gap(&v);
    if i == end {
        return match count_to_one(&v) {
            Some(n) => n == 8,
            None => false,
        };
    }
    let head = sub_chars(&v, 0, i);
    let tail = sub_chars(&v, i + 2, end);
    assert(head@ =~= s@.take(i as int));
    assert(tail@ =~= s@.skip(i + 2));
    match (count_zeros(&head), count_to_one(&tail)) {
        (Some(m), Some(n)) => m <= 7 && n <= 7 && m + n <= 7,
        _ => false,
    }
}

} // verus!
