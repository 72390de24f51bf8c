//! Which hints are shown.

use crate::assoc::{has_key, lookup};
use crate::extends::reached;
use crate::pack_update_hint::{
    classified, elapsed_seconds, entry_hint, newer, profile_packs, provided_by, refreshed_hints,
    version_triple, HintView, PackHintEntry,
};
use crate::package::Lockfile;
use crate::text::laws::{law_split_undoes_separated, separated};
use crate::text::{
    append_new, decimal, is_digit, law_parse_decimal, lemma_decimal_digits, lemma_in_either,
    lemma_in_filtered,
};
use vstd::prelude::*;

verus! {

/// A version as it is written: three numbers with dots between them.
pub open spec fn written_version(a: nat, b: nat, c: nat) -> Seq<char> {
    separated(seq![decimal(a), decimal(b), decimal(c)], '.')
}

proof fn lemma_no_dot(n: nat)
    ensures
        !decimal(n).contains('.'),
        decimal(n).len() > 0,
        decimal(n)[0] != 'v',
{
    lemma_decimal_digits(n);
    let d = decimal(n);
    assert forall|k: int| 0 <= k < d.len() implies d[k] != '.' && d[k] != 'v' by {
        assert(is_digit(d[k]));
    }
}

proof fn lemma_triple(a: nat, b: nat, c: nat)
    requires
        a <= u64::MAX && b <= u64::MAX && c <= u64::MAX,
    ensures
        version_triple(written_version(a, b, c)) == Some((a, b, c)),
        version_triple(seq!['v'] + written_version(a, b, c)) == Some((a, b, c)),
{
    let parts = seq![decimal(a), decimal(b), decimal(c)];
    lemma_no_dot(a);
    lemma_no_dot(b);
    lemma_no_dot(c);
    assert forall|i: int| 0 <= i < parts.len() implies !(#[trigger] parts[i]).contains('.') by {
        if i == 0 {
        } else if i == 1 {
        } else {
        }
    }
    law_split_undoes_separated(parts, '.');
    law_parse_decimal(a, u64::MAX as nat);
    law_parse_decimal(b, u64::MAX as nat);
    law_parse_decimal(c, u64::MAX as nat);
    let s = written_version(a, b, c);
    assert(s[0] == decimal(a)[0]);
    assert((seq!['v'] + s).skip(1) =~= s);
}

/// A release is newer where the first of its numbers that differs is greater; a `v` before a version
/// does not matter.
pub proof fn law_newer_releases(
    a0: nat,
    a1: nat,
    a2: nat,
    b0: nat,
    b1: nat,
    b2: nat,
)
    requires
        a0 <= u64::MAX && a1 <= u64::MAX && a2 <= u64::MAX,
        b0 <= u64::MAX && b1 <= u64::MAX && b2 <= u64::MAX,
    ensures
        ({
            let (x, y) = (written_version(a0, a1, a2), written_version(b0, b1, b2));
            &&& a0 != b0 ==> newer(x, y) == (a0 < b0)
            &&& a0 == b0 && a1 != b1 ==> newer(x, y) == (a1 < b1)
            &&& a0 == b0 && a1 == b1 ==> newer(x, y) == (a2 < b2)
            &&& newer(seq!['v'] + x, y) == newer(x, y)
            &&& newer(x, seq!['v'] + y) == newer(x, y)
        }),
{
    lemma_triple(a0, a1, a2);
    lemma_triple(b0, b1, b2);
}

/// What was found out about a pack less than a day ago.
pub open spec fn is_recent(e: PackHintEntry, now: Seq<char>) -> bool {
    elapsed_seconds(e.last_check@, now) is Some && elapsed_seconds(e.last_check@, now)->0
        < 24 * 60 * 60
}

/// A hint is on a pack of the profile for which a newer release was found.
pub open spec fn is_hint(
    packs: Seq<(Seq<char>, Seq<char>)>,
    entries: Seq<(String, PackHintEntry)>,
    now: Seq<char>,
    h: HintView,
) -> bool {
    exists|i: int|
        0 <= i < packs.len() && #[trigger] packs[i] == (h.0, h.1) && match lookup(entries, h.0) {
            Some(e) => is_recent(e, now) && e.latest is Some && (e.latest->0)@ == h.2 && newer(
                h.1,
                h.2,
            ),
            None => false,
        }
}

/// Nothing recent is known of a pack.
pub open spec fn is_stale(entries: Seq<(String, PackHintEntry)>, now: Seq<char>, pack: Seq<char>) -> bool {
    match lookup(entries, pack) {
        Some(e) => !is_recent(e, now),
        None => true,
    }
}

proof fn lemma_more_hints(a: Seq<HintView>, b: Seq<HintView>, h: HintView)
    ensures
        (a + b).contains(h) <==> a.contains(h) || b.contains(h),
{
    if a.contains(h) {
        let i = choose|i: int| 0 <= i < a.len() && a[i] == h;
        assert((a + b)[i] == h);
    }
    if b.contains(h) {
        let i = choose|i: int| 0 <= i < b.len() && b[i] == h;
        assert((a + b)[a.len() + i] == h);
    }
    if (a + b).contains(h) {
        let i = choose|i: int| 0 <= i < (a + b).len() && (a + b)[i] == h;
        if i < a.len() {
            assert(a[i] == h);
        } else {
            assert(b[i - a.len()] == h);
        }
    }
}

proof fn lemma_entry_hint(e: PackHintEntry, pack: Seq<char>, installed: Seq<char>, h: HintView)
    ensures
        entry_hint(e, pack, installed).contains(h) <==> h.0 == pack && h.1 == installed && e.latest
            is Some && (e.latest->0)@ == h.2 && newer(installed, h.2),
{
    let r = entry_hint(e, pack, installed);
    if r.len() > 0 {
        assert(r[0] == (pack, installed, (e.latest->0)@));
    }
}

/// The hints that are shown are those on packs of the profile of which a newer release was found
/// within the last day; the packs to find out about are those of which nothing so recent is known.
pub proof fn law_shown_hints(
    packs: Seq<(Seq<char>, Seq<char>)>,
    entries: Seq<(String, PackHintEntry)>,
    now: Seq<char>,
    h: HintView,
    p: (Seq<char>, Seq<char>),
)
    ensures
        classified(packs, entries, now).hints.contains(h) <==> is_hint(packs, entries, now, h),
        classified(packs, entries, now).stale.contains(p) <==> packs.contains(p) && is_stale(
            entries,
            now,
            p.0,
        ),
    decreases packs.len(),
{
    if packs.len() > 0 {
        let front = packs.drop_last();
        let q = packs.last();
        let c = classified(front, entries, now);
        law_shown_hints(front, entries, now, h, p);
        assert(packs[packs.len() - 1] == q);
        if let Some(e) = lookup(entries, q.0) {
            lemma_more_hints(c.hints, entry_hint(e, q.0, q.1), h);
            lemma_entry_hint(e, q.0, q.1, h);
        }
        if is_hint(front, entries, now, h) {
            let i = choose|i: int| 0 <= i < front.len() && #[trigger] front[i] == (h.0, h.1);
            assert(packs[i] == (h.0, h.1));
        }
        if is_hint(packs, entries, now, h) {
            let i = choose|i: int| 0 <= i < packs.len() && #[trigger] packs[i] == (h.0, h.1);
            if i < front.len() {
                assert(front[i] == (h.0, h.1));
            }
        }
        if front.contains(p) {
            let i = choose|i: int| 0 <= i < front.len() && front[i] == p;
            assert(packs[i] == p);
        }
        if packs.contains(p) && p != q {
            let i = choose|i: int| 0 <= i < packs.len() && packs[i] == p;
            assert(front[i] == p);
        }
        let s = c.stale.push(q);
        if c.stale.contains(p) {
            let i = choose|i: int| 0 <= i < c.stale.len() && c.stale[i] == p;
            assert(s[i] == p);
        }
        if p == q {
            assert(s[c.stale.len() as int] == q);
        }
    }
}

/// After packs were found out about, each of which a newer release is known gives a hint.
pub proof fn law_hints_after_finding_out(
    packs: Seq<(Seq<char>, Seq<char>)>,
    entries: Seq<(String, PackHintEntry)>,
    h: HintView,
)
    ensures
        refreshed_hints(packs, entries).contains(h) <==> packs.contains((h.0, h.1)) && (match lookup(
            entries,
            h.0,
        ) {
            Some(e) => e.latest is Some && (e.latest->0)@ == h.2 && newer(h.1, h.2),
            None => false,
        }),
    decreases packs.len(),
{
    if packs.len() > 0 {
        let front = packs.drop_last();
        let q = packs.last();
        let p = (h.0, h.1);
        law_hints_after_finding_out(front, entries, h);
        assert(packs[packs.len() - 1] == q);
        if let Some(e) = lookup(entries, q.0) {
            lemma_more_hints(refreshed_hints(front, entries), entry_hint(e, q.0, q.1), h);
            lemma_entry_hint(e, q.0, q.1, h);
        }
        if front.contains(p) {
            let i = choose|i: int| 0 <= i < front.len() && front[i] == p;
            assert(packs[i] == p);
        }
        if packs.contains(p) && p != q {
            let i = choose|i: int| 0 <= i < packs.len() && packs[i] == p;
            assert(front[i] == p);
        }
    }
}

proof fn lemma_provided(names: Seq<Seq<char>>, providers: Seq<(String, String)>, pack: Seq<char>)
    ensures
        provided_by(names, providers).contains(pack) <==> exists|i: int|
            0 <= i < names.len() && (match lookup(providers, #[trigger] names[i]) {
                Some(p) => p@ == pack,
                None => false,
            }),
    decreases names.len(),
{
    if names.len() > 0 {
        let front = names.drop_last();
        lemma_provided(front, providers, pack);
        let a = provided_by(front, providers);
        assert(names[names.len() - 1] == names.last());
        if let Some(p) = lookup(providers, names.last()) {
            let one = seq![p@];
            assert(one.drop_last() =~= Seq::empty());
            assert(append_new(a, one.drop_last()) == a);
            assert(one.last() == p@);
            lemma_in_either(a, one, pack);
            assert(a + one =~= a.push(p@));
            assert(one.contains(pack) <==> pack == p@) by {
                assert(one[0] == p@);
            }
        }
        if exists|i: int|
            0 <= i < front.len() && (match lookup(providers, #[trigger] front[i]) {
                Some(p) => p@ == pack,
                None => false,
            }) {
            let i = choose|i: int|
                0 <= i < front.len() && (match lookup(providers, #[trigger] front[i]) {
                    Some(p) => p@ == pack,
                    None => false,
                });
            assert(names[i] == front[i]);
        }
        if exists|i: int|
            0 <= i < names.len() && (match lookup(providers, #[trigger] names[i]) {
                Some(p) => p@ == pack,
                None => false,
            }) {
            let i = choose|i: int|
                0 <= i < names.len() && (match lookup(providers, #[trigger] names[i]) {
                    Some(p) => p@ == pack,
                    None => false,
                });
            if i < front.len() {
                assert(front[i] == names[i]);
            }
        }
    }
}

/// The packs of a profile are those that provide it or a profile that it builds on, as far as they
/// are installed, with the installed version.
pub proof fn law_packs_of_profiles(
    bases: Seq<(String, Vec<String>)>,
    name: Seq<char>,
    providers: Seq<(String, String)>,
    lockfile: Lockfile,
    pack: Seq<char>,
    version: Seq<char>,
)
    ensures
        profile_packs(bases, name, providers, lockfile).contains((pack, version)) <==> {
            &&& has_key(lockfile.packages@, pack)
            &&& (lookup(lockfile.packages@, pack)->0).version@ == version
            &&& exists|i: int|
                0 <= i < reached(bases, name).len() && (match lookup(
                    providers,
                    #[trigger] reached(bases, name)[i],
                ) {
                    Some(p) => p@ == pack,
                    None => false,
                })
        },
{
    let keep = |p: Seq<char>| has_key(lockfile.packages@, p);
    let shape = |p: Seq<char>| (p, (lookup(lockfile.packages@, p)->0).version@);
    let all = provided_by(reached(bases, name), providers);
    let kept = all.filter(keep);
    let r = kept.map_values(shape);
    lemma_provided(reached(bases, name), providers, pack);
    lemma_in_filtered(all, keep, pack);
    let x = (pack, version);
    if r.contains(x) {
        let i = choose|i: int| 0 <= i < r.len() && r[i] == x;
        assert(kept[i] == pack);
        assert(kept.contains(pack));
    }
    if kept.contains(pack) && (lookup(lockfile.packages@, pack)->0).version@ == version {
        let i = choose|i: int| 0 <= i < kept.len() && kept[i] == pack;
        assert(r[i] == x);
    }
}

/// A hint names the pack, the version at hand and the newer one; without a hint nothing is shown.
pub proof fn law_hints_in_words(h: Seq<HintView>, i: int)
    ensures
        h.len() == 0 <==> crate::pack_update_hint::hint_lines(h).len() == 0,
        0 <= i < h.len() ==> {
            let l = crate::pack_update_hint::hint_lines(h)[i];
            &&& l[3].1 == h[i].0
            &&& l[5].1 == h[i].1 + " →"@
            &&& l[7].1 == h[i].2
        },
{
}

} // verus!
