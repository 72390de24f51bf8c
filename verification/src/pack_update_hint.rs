//! Hints that a newer release of a pack is out.

pub mod laws;

use crate::assoc::{
    find_key, has_key, in_key_order, law_set_then_get, lookup, set_entry,
};
use crate::extends::{reached, walk_bases, BaseTable};
use crate::package::{parse_package_ref, parsed_ref, Lockfile};
use crate::report::{blank_line, line_view, span, LineView, Report, Span, Style};
use crate::text::{
    append_new, chars_of, chars_split, concat2, copy_str, lemma_filter_step, parse_digits,
    parse_number, push_copy, push_new, split_on, sub_chars, views,
};
use chrono::DateTime;
use vstd::prelude::*;

verus! {

/// How long what was found out stays good: a day, in seconds.
pub const CHECK_INTERVAL_SECS: i64 = 86400;

/// What was found out about a pack: when, as an RFC 3339 text, in which version it was installed
/// then, and the latest release, if it could be found out.
#[derive(Debug)]
pub struct PackHintEntry {
    pub last_check: String,
    pub installed_at_check: String,
    pub latest: Option<String>,
}

/// What was found out, by pack.
#[derive(Debug)]
pub struct PackHintsState {
    pub entries: Vec<(String, PackHintEntry)>,
}

impl PackHintsState {
    /// The packs are in order, each once.
    pub open spec fn wf(self) -> bool {
        in_key_order(self.entries@)
    }
}

// ---------------------------------------------------------------------------
// Versions
// ---------------------------------------------------------------------------

/// The first three numbers of a version; a leading `v` does not count, nor what follows them.
pub open spec fn version_triple(s: Seq<char>) -> Option<(nat, nat, nat)> {
    let t = if s.len() > 0 && s[0] == 'v' {
        s.skip(1)
    } else {
        s
    };
    let parts = split_on(t, '.');
    if parts.len() < 3 {
        None
    } else {
        match (
            parse_number(parts[0], u64::MAX as nat),
            parse_number(parts[1], u64::MAX as nat),
            parse_number(parts[2], u64::MAX as nat),
        ) {
            (Some(a), Some(b), Some(c)) => Some((a, b, c)),
            _ => None,
        }
    }
}

pub open spec fn triple_lt(a: (nat, nat, nat), b: (nat, nat, nat)) -> bool {
    a.0 < b.0 || a.0 == b.0 && (a.1 < b.1 || a.1 == b.1 && a.2 < b.2)
}

/// A release is newer than the installed one. One that can be read is newer than one that cannot.
pub open spec fn newer(installed: Seq<char>, latest: Seq<char>) -> bool {
    match (version_triple(installed), version_triple(latest)) {
        (Some(i), Some(l)) => triple_lt(i, l),
        (None, Some(_)) => true,
        _ => false,
    }
}

fn read_triple(s: &str) -> (r: Option<(u64, u64, u64)>)
    ensures
        match r {
            Some(x) => version_triple(s@) == Some((x.0 as nat, x.1 as nat, x.2 as nat)),
            None => version_triple(s@) is None,
        },
{
    let v = chars_of(s);
    let start: usize = if v.len() > 0 && v[0] == 'v' {
        1
    } else {
        0
    };
    let t = sub_chars(&v, start, v.len());
    proof {
        assert(start == 1 ==> t@ =~= s@.skip(1));
        assert(start == 0 ==> t@ =~= s@);
    }
    let parts = chars_split(&t, '.');
    if parts.len() < 3 {
        return None;
    }
    match (
        parse_digits(&parts[0], u64::MAX),
        parse_digits(&parts[1], u64::MAX),
        parse_digits(&parts[2], u64::MAX),
    ) {
        (Some(a), Some(b), Some(c)) => Some((a, b, c)),
        _ => None,
    }
}

/// Whether a release is newer than the installed one.
pub fn is_newer(installed: &str, latest: &str) -> (r: bool)
    ensures
        r == newer(installed@, latest@),
{
    match (read_triple(installed), read_triple(latest)) {
        (Some(i), Some(l)) => i.0 < l.0 || (i.0 == l.0 && (i.1 < l.1 || (i.1 == l.1 && i.2 < l.2))),
        (None, Some(_)) => true,
        _ => false,
    }
}

/// No release is newer than itself, and of two only one can be newer than the other.
pub proof fn law_newer_is_strict(a: Seq<char>, b: Seq<char>)
    ensures
        !newer(a, a),
        newer(a, b) ==> !newer(b, a),
{
}

// ---------------------------------------------------------------------------
// The packs of a profile
// ---------------------------------------------------------------------------

/// The packs that provide the profiles of a list, each once.
pub open spec fn provided_by(names: Seq<Seq<char>>, providers: Seq<(String, String)>) -> Seq<Seq<char>>
    decreases names.len(),
{
    if names.len() == 0 {
        Seq::empty()
    } else {
        let front = provided_by(names.drop_last(), providers);
        match lookup(providers, names.last()) {
            Some(p) => append_new(front, seq![p@]),
            None => front,
        }
    }
}

fn providers_of(names: &Vec<String>, providers: &Vec<(String, String)>) -> (r: Vec<String>)
    ensures
        views(r@) == provided_by(views(names@), providers@),
{
    let ghost all = views(names@);
    let mut r: Vec<String> = Vec::new();
    let mut i: usize = 0;
    assert(views(r@) =~= provided_by(all.take(0), providers@));
    while i < names.len()
        invariant
            i <= names@.len(),
            all == views(names@),
            views(r@) == provided_by(all.take(i as int), providers@),
        decreases names@.len() - i,
    {
        proof {
            assert(all.take(i + 1).drop_last() =~= all.take(i as int));
            assert(all.take(i + 1).last() == names@[i as int]@);
        }
        if let Some(k) = find_key(providers, names[i].as_str()) {
            let mut one: Vec<String> = Vec::new();
            push_copy(&mut one, providers[k].1.as_str());
            assert(views(one@) =~= seq![providers@[k as int].1@]);
            push_new(&mut r, &one);
        }
        i += 1;
    }
    assert(all.take(i as int) =~= all);
    r
}

pub open spec fn pair_view(p: (String, String)) -> (Seq<char>, Seq<char>) {
    (p.0@, p.1@)
}

pub open spec fn pairs_view(v: Seq<(String, String)>) -> Seq<(Seq<char>, Seq<char>)> {
    v.map_values(|p: (String, String)| pair_view(p))
}

/// The packs on which a profile rests, directly or through its bases, with the installed versions.
/// Packs that are not installed are left out.
pub open spec fn profile_packs(
    t: Seq<(String, Vec<String>)>,
    name: Seq<char>,
    providers: Seq<(String, String)>,
    lockfile: Lockfile,
) -> Seq<(Seq<char>, Seq<char>)> {
    provided_by(reached(t, name), providers).filter(
        |p: Seq<char>| has_key(lockfile.packages@, p),
    ).map_values(|p: Seq<char>| (p, (lookup(lockfile.packages@, p)->0).version@))
}

/// Collects the packs on which a profile rests. `providers` holds for a profile the pack that
/// provides it.
pub fn collect_profile_packs(
    t: &BaseTable,
    name: &str,
    providers: &Vec<(String, String)>,
    lockfile: &Lockfile,
) -> (r: Vec<(String, String)>)
    ensures
        pairs_view(r@) == profile_packs(t@, name@, providers@, *lockfile),
{
    let names = walk_bases(t, name);
    let packs = providers_of(&names, providers);
    let ghost all = views(packs@);
    let ghost keep = |p: Seq<char>| has_key(lockfile.packages@, p);
    let ghost shape = |p: Seq<char>| (p, (lookup(lockfile.packages@, p)->0).version@);
    let mut r: Vec<(String, String)> = Vec::new();
    let mut i: usize = 0;
    assert(pairs_view(r@) =~= all.take(0).filter(keep).map_values(shape));
    while i < packs.len()
        invariant
            i <= packs@.len(),
            all == views(packs@),
            keep == (|p: Seq<char>| has_key(lockfile.packages@, p)),
            shape == (|p: Seq<char>| (p, (lookup(lockfile.packages@, p)->0).version@)),
            pairs_view(r@) == all.take(i as int).filter(keep).map_values(shape),
        decreases packs@.len() - i,
    {
        let ghost done = all.take(i as int).filter(keep);
        let pack = packs[i].as_str();
        proof {
            lemma_filter_step(all, i as int, keep);
            assert(all[i as int] == pack@);
            assert(done.push(pack@).map_values(shape) =~= done.map_values(shape).push(
                shape(pack@),
            ));
        }
        if let Some(k) = find_key(&lockfile.packages, pack) {
            let ghost before = pairs_view(r@);
            let version = copy_str(lockfile.packages[k].1.version.as_str());
            let key = copy_str(pack);
            r.push((key, version));
            assert(pairs_view(r@) =~= before.push(shape(pack@)));
        }
        i += 1;
    }
    assert(all.take(i as int) =~= all);
    r
}

// ---------------------------------------------------------------------------
// What is shown
// ---------------------------------------------------------------------------

/// The whole seconds from one time to another, both RFC 3339 texts; nothing where one is none.
pub uninterp spec fn elapsed_seconds(from: Seq<char>, to: Seq<char>) -> Option<int>;

/// `DateTime::signed_duration_since` of the crate `chrono`, on two times that
/// `DateTime::parse_from_rfc3339` reads, in whole seconds: a function of the two texts.
#[verifier::external_body]
fn seconds_between(from: &str, to: &str) -> (r: Option<i64>)
    ensures
        elapsed_seconds(from@, to@) == match r {
            Some(n) => Some(n as int),
            None => None,
        },
{
    let from = DateTime::parse_from_rfc3339(from).ok()?;
    let to = DateTime::parse_from_rfc3339(to).ok()?;
    Some(to.signed_duration_since(from).num_seconds())
}

/// The time of an entry can be read: a difference can be taken from it.
pub open spec fn time_readable(e: PackHintEntry) -> bool {
    elapsed_seconds(e.last_check@, e.last_check@) is Some
}

pub open spec fn times_readable(entries: Seq<(String, PackHintEntry)>) -> bool {
    forall|i: int| 0 <= i < entries.len() ==> time_readable((#[trigger] entries[i]).1)
}

/// What was kept is taken whole or not at all: one time that cannot be read spoils it.
pub fn load_state(kept: PackHintsState) -> (r: PackHintsState)
    requires
        kept.wf(),
    ensures
        r.wf(),
        r.entries@ == if times_readable(kept.entries@) {
            kept.entries@
        } else {
            Seq::empty()
        },
{
    let mut i: usize = 0;
    while i < kept.entries.len()
        invariant
            i <= kept.entries@.len(),
            times_readable(kept.entries@.take(i as int)),
        decreases kept.entries@.len() - i,
    {
        let at = kept.entries[i].1.last_check.as_str();
        if seconds_between(at, at).is_none() {
            assert(!time_readable(kept.entries@[i as int].1));
            return PackHintsState { entries: Vec::new() };
        }
        assert(kept.entries@.take(i + 1) =~= kept.entries@.take(i as int).push(
            kept.entries@[i as int],
        ));
        i += 1;
    }
    assert(kept.entries@.take(i as int) =~= kept.entries@);
    kept
}

/// What was found out so long ago is still good.
pub fn is_fresh(age: Option<i64>) -> (r: bool)
    ensures
        r == match age {
            Some(n) => n < CHECK_INTERVAL_SECS,
            None => false,
        },
{
    match age {
        Some(n) => n < CHECK_INTERVAL_SECS,
        None => false,
    }
}

/// An entry is good at a time.
pub open spec fn fresh(e: PackHintEntry, now: Seq<char>) -> bool {
    match elapsed_seconds(e.last_check@, now) {
        Some(n) => n < CHECK_INTERVAL_SECS,
        None => false,
    }
}

pub type HintView = (Seq<char>, Seq<char>, Seq<char>);

pub open spec fn hint_view(h: (String, String, String)) -> HintView {
    (h.0@, h.1@, h.2@)
}

pub open spec fn hints_view(v: Seq<(String, String, String)>) -> Seq<HintView> {
    v.map_values(|h: (String, String, String)| hint_view(h))
}

/// The hint that what was found out gives for an installed pack, if any.
pub open spec fn entry_hint(e: PackHintEntry, pack: Seq<char>, installed: Seq<char>) -> Seq<HintView> {
    match e.latest {
        Some(l) => if newer(installed, l@) {
            seq![(pack, installed, l@)]
        } else {
            Seq::empty()
        },
        None => Seq::empty(),
    }
}

fn push_hint(hints: &mut Vec<(String, String, String)>, e: &PackHintEntry, pack: &str, installed: &str)
    ensures
        hints_view(final(hints)@) == hints_view(old(hints)@) + entry_hint(*e, pack@, installed@),
{
    let ghost before = hints_view(hints@);
    if let Some(l) = &e.latest {
        if is_newer(installed, l.as_str()) {
            hints.push((copy_str(pack), copy_str(installed), copy_str(l.as_str())));
        }
    }
    assert(hints_view(hints@) =~= before + entry_hint(*e, pack@, installed@));
}

/// The hints and the packs of which nothing good is known.
pub struct Classified {
    pub hints: Seq<HintView>,
    pub stale: Seq<(Seq<char>, Seq<char>)>,
}

/// Parts packs by whether what was found out about them is still good.
pub open spec fn classified(
    packs: Seq<(Seq<char>, Seq<char>)>,
    entries: Seq<(String, PackHintEntry)>,
    now: Seq<char>,
) -> Classified
    decreases packs.len(),
{
    if packs.len() == 0 {
        Classified { hints: Seq::empty(), stale: Seq::empty() }
    } else {
        let c = classified(packs.drop_last(), entries, now);
        let p = packs.last();
        match lookup(entries, p.0) {
            Some(e) => if fresh(e, now) {
                Classified { hints: c.hints + entry_hint(e, p.0, p.1), ..c }
            } else {
                Classified { stale: c.stale.push(p), ..c }
            },
            None => Classified { stale: c.stale.push(p), ..c },
        }
    }
}

fn push_pair(v: &mut Vec<(String, String)>, a: &str, b: &str)
    ensures
        pairs_view(final(v)@) == pairs_view(old(v)@).push((a@, b@)),
{
    v.push((copy_str(a), copy_str(b)));
    assert(pairs_view(v@) =~= pairs_view(old(v)@).push((a@, b@)));
}

/// Parts the packs of a profile: hints for those of which something good is known, and the rest.
/// `now` is the time as an RFC 3339 text.
pub fn classify_packs(packs: &Vec<(String, String)>, state: &PackHintsState, now: &str) -> (r: (
    Vec<(String, String, String)>,
    Vec<(String, String)>,
))
    ensures
        hints_view(r.0@) == classified(pairs_view(packs@), state.entries@, now@).hints,
        pairs_view(r.1@) == classified(pairs_view(packs@), state.entries@, now@).stale,
{
    let ghost all = pairs_view(packs@);
    let mut hints: Vec<(String, String, String)> = Vec::new();
    let mut stale: Vec<(String, String)> = Vec::new();
    let mut i: usize = 0;
    assert(all.take(0).len() == 0);
    assert(hints_view(hints@) =~= Seq::<HintView>::empty());
    assert(pairs_view(stale@) =~= Seq::<(Seq<char>, Seq<char>)>::empty());
    while i < packs.len()
        invariant
            i <= packs@.len(),
            all == pairs_view(packs@),
            hints_view(hints@) == classified(all.take(i as int), state.entries@, now@).hints,
            pairs_view(stale@) == classified(all.take(i as int), state.entries@, now@).stale,
        decreases packs@.len() - i,
    {
        let pack = packs[i].0.as_str();
        let installed = packs[i].1.as_str();
        proof {
            assert(all.take(i + 1).drop_last() =~= all.take(i as int));
            assert(all.take(i + 1).last() == (pack@, installed@));
        }
        match find_key(&state.entries, pack) {
            Some(k) => {
                let e = &state.entries[k].1;
                if is_fresh(seconds_between(e.last_check.as_str(), now)) {
                    push_hint(&mut hints, e, pack, installed);
                } else {
                    push_pair(&mut stale, pack, installed);
                }
            },
            None => {
                push_pair(&mut stale, pack, installed);
            },
        }
        i += 1;
    }
    assert(all.take(i as int) =~= all);
    (hints, stale)
}

/// The hints that packs give whose state was just found out.
pub open spec fn refreshed_hints(
    packs: Seq<(Seq<char>, Seq<char>)>,
    entries: Seq<(String, PackHintEntry)>,
) -> Seq<HintView>
    decreases packs.len(),
{
    if packs.len() == 0 {
        Seq::empty()
    } else {
        let before = refreshed_hints(packs.drop_last(), entries);
        match lookup(entries, packs.last().0) {
            Some(e) => before + entry_hint(e, packs.last().0, packs.last().1),
            None => before,
        }
    }
}

/// When what is unknown or too old is found out.
#[derive(Clone, Copy, Debug, PartialEq, Eq, Structural)]
pub enum Refresh {
    /// Nothing is to be found out.
    Nothing,
    /// Before the hints are shown, since nothing was ever found out.
    Now,
    /// By another process, for the next time.
    Later,
}

/// What is shown of the packs of a profile, and what is found out about them.
#[derive(Debug)]
pub struct HintPlan {
    pub hints: Vec<(String, String, String)>,
    pub stale: Vec<(String, String)>,
    pub refresh: Refresh,
}

/// Decides which hints are shown for the packs of a profile, and what has to be found out.
/// `remembered` says that something was found out before; hints on what is found out at once come
/// from [`hints_after_refresh`].
pub fn show_pack_update_hints(
    packs: &Vec<(String, String)>,
    state: &PackHintsState,
    remembered: bool,
    now: &str,
    silent: bool,
    opted_out: bool,
) -> (r: HintPlan)
    ensures
        silent || opted_out ==> r.hints@.len() == 0 && r.stale@.len() == 0 && r.refresh
            == Refresh::Nothing,
        !silent && !opted_out ==> {
            let c = classified(pairs_view(packs@), state.entries@, now@);
            &&& hints_view(r.hints@) == c.hints
            &&& pairs_view(r.stale@) == c.stale
            &&& r.refresh == if c.stale.len() == 0 {
                Refresh::Nothing
            } else if remembered {
                Refresh::Later
            } else {
                Refresh::Now
            }
        },
{
    if silent || opted_out {
        return HintPlan { hints: Vec::new(), stale: Vec::new(), refresh: Refresh::Nothing };
    }
    let (hints, stale) = classify_packs(packs, state, now);
    assert(pairs_view(stale@).len() == stale@.len());
    let refresh = if stale.len() == 0 {
        Refresh::Nothing
    } else if remembered {
        Refresh::Later
    } else {
        Refresh::Now
    };
    HintPlan { hints, stale, refresh }
}

/// Every pack of a profile is either known well enough, or found out about.
pub proof fn law_every_pack_is_known_or_stale(
    packs: Seq<(Seq<char>, Seq<char>)>,
    entries: Seq<(String, PackHintEntry)>,
    now: Seq<char>,
    i: int,
)
    requires
        0 <= i < packs.len(),
    ensures
        classified(packs, entries, now).stale.contains(packs[i]) || (match lookup(
            entries,
            packs[i].0,
        ) {
            Some(e) => fresh(e, now),
            None => false,
        }),
    decreases packs.len(),
{
    let front = packs.drop_last();
    let c = classified(front, entries, now);
    let all = classified(packs, entries, now);
    if i < front.len() {
        law_every_pack_is_known_or_stale(front, entries, now, i);
        if c.stale.contains(packs[i]) {
            let k = choose|k: int| 0 <= k < c.stale.len() && c.stale[k] == packs[i];
            assert(all.stale[k] == packs[i]);
        }
    } else if all.stale != c.stale {
        assert(all.stale.last() == packs[i]);
    } else {
        assert(all.stale.len() == c.stale.len());
    }
}

pub fn hints_after_refresh(stale: &Vec<(String, String)>, state: &PackHintsState) -> (r: Vec<
    (String, String, String),
>)
    ensures
        hints_view(r@) == refreshed_hints(pairs_view(stale@), state.entries@),
{
    let ghost all = pairs_view(stale@);
    let mut hints: Vec<(String, String, String)> = Vec::new();
    let mut i: usize = 0;
    assert(hints_view(hints@) =~= refreshed_hints(all.take(0), state.entries@));
    while i < stale.len()
        invariant
            i <= stale@.len(),
            all == pairs_view(stale@),
            hints_view(hints@) == refreshed_hints(all.take(i as int), state.entries@),
        decreases stale@.len() - i,
    {
        let pack = stale[i].0.as_str();
        proof {
            assert(all.take(i + 1).drop_last() =~= all.take(i as int));
            assert(all.take(i + 1).last() == (pack@, stale@[i as int].1@));
        }
        if let Some(k) = find_key(&state.entries, pack) {
            push_hint(&mut hints, &state.entries[k].1, pack, stale[i].1.as_str());
        }
        i += 1;
    }
    assert(all.take(i as int) =~= all);
    hints
}

/// Writes down what the registry said of a pack. What names no pack is left out.
pub fn record_status(
    state: &mut PackHintsState,
    pack: &str,
    installed: &str,
    latest: Option<String>,
    now: &str,
)
    requires
        old(state).wf(),
    ensures
        final(state).wf(),
        parsed_ref(pack@) is Err ==> final(state).entries@ == old(state).entries@,
        parsed_ref(pack@) is Ok ==> {
            &&& has_key(final(state).entries@, pack@)
            &&& {
                let e = lookup(final(state).entries@, pack@)->0;
                e.last_check@ == now@ && e.installed_at_check@ == installed@ && e.latest == latest
            }
            &&& forall|other: Seq<char>|
                other != pack@ ==> #[trigger] lookup(final(state).entries@, other) == lookup(
                    old(state).entries@,
                    other,
                )
        },
{
    if parse_package_ref(pack).is_err() {
        return ;
    }
    let entry = PackHintEntry {
        last_check: copy_str(now),
        installed_at_check: copy_str(installed),
        latest,
    };
    let key = copy_str(pack);
    let ghost k = key;
    let ghost e = entry;
    let ghost before = state.entries@;
    set_entry(&mut state.entries, key, entry);
    proof {
        law_set_then_get(before, k, e, k@);
        assert forall|other: Seq<char>| other != k@ implies #[trigger] lookup(
            state.entries@,
            other,
        ) == lookup(before, other) by {
            law_set_then_get(before, k, e, other);
        }
    }
}

pub open spec fn hint_line(h: HintView) -> LineView {
    seq![
        (Style::Plain, "  "@),
        (Style::Yellow, "update available"@),
        (Style::Plain, " "@),
        (Style::Text, h.0),
        (Style::Plain, "  "@),
        (Style::Subtext, h.1 + " →"@),
        (Style::Plain, " "@),
        (Style::Green, h.2),
        (Style::Plain, " "@),
        (Style::Subtext, " run: nono update"@),
    ]
}

/// The hints for people, and an empty line behind them.
pub open spec fn hint_lines(h: Seq<HintView>) -> Seq<LineView> {
    if h.len() == 0 {
        Seq::empty()
    } else {
        h.map_values(|x: HintView| hint_line(x)).push(blank_line())
    }
}

fn add_hint(out: &mut Report, h: &(String, String, String))
    ensures
        final(out)@ == old(out)@.push(hint_line(hint_view(*h))),
{
    let mut line: Vec<Span> = Vec::new();
    let arrow = concat2(h.1.as_str(), " →");
    line.push(span(Style::Plain, "  "));
    line.push(span(Style::Yellow, "update available"));
    line.push(span(Style::Plain, " "));
    line.push(span(Style::Text, h.0.as_str()));
    line.push(span(Style::Plain, "  "));
    line.push(span(Style::Subtext, arrow.as_str()));
    line.push(span(Style::Plain, " "));
    line.push(span(Style::Green, h.2.as_str()));
    line.push(span(Style::Plain, " "));
    line.push(span(Style::Subtext, " run: nono update"));
    assert(line_view(line@) =~= hint_line(hint_view(*h)));
    out.push_line(line);
}

pub fn print_hints(hints: &Vec<(String, String, String)>) -> (out: Report)
    ensures
        out@ == hint_lines(hints_view(hints@)),
{
    let mut out = Report::new();
    if hints.len() == 0 {
        return out;
    }
    let ghost all = hints_view(hints@).map_values(|x: HintView| hint_line(x));
    let mut i: usize = 0;
    assert(out@ =~= all.take(0));
    while i < hints.len()
        invariant
            i <= hints@.len(),
            all == hints_view(hints@).map_values(|x: HintView| hint_line(x)),
            out@ == all.take(i as int),
        decreases hints@.len() - i,
    {
        assert(all[i as int] == hint_line(hint_view(hints@[i as int])));
        add_hint(&mut out, &hints[i]);
        i += 1;
        assert(all.take(i as int) =~= all.take(i - 1).push(all[i - 1]));
    }
    assert(all.take(i as int) =~= all);
    out.blank();
    out
}

// ---------------------------------------------------------------------------
// The helper process
// ---------------------------------------------------------------------------

/// Pairs as arguments, one after the other.
pub open spec fn flattened(pairs: Seq<(Seq<char>, Seq<char>)>) -> Seq<Seq<char>>
    decreases pairs.len(),
{
    if pairs.len() == 0 {
        Seq::empty()
    } else {
        flattened(pairs.drop_last()).push(pairs.last().0).push(pairs.last().1)
    }
}

/// Arguments as pairs; nothing where one is left over.
pub open spec fn paired(args: Seq<Seq<char>>) -> Option<Seq<(Seq<char>, Seq<char>)>> {
    if args.len() % 2 == 0 {
        Some(Seq::new(args.len() / 2, |i: int| (args[2 * i], args[2 * i + 1])))
    } else {
        None
    }
}

/// The arguments for the helper process.
pub fn refresh_helper_args(stale: &[(String, String)]) -> (r: Vec<String>)
    ensures
        views(r@) == flattened(pairs_view(stale@)),
{
    let ghost all = pairs_view(stale@);
    let mut r: Vec<String> = Vec::new();
    let mut i: usize = 0;
    assert(views(r@) =~= flattened(all.take(0)));
    while i < stale.len()
        invariant
            i <= stale@.len(),
            all == pairs_view(stale@),
            views(r@) == flattened(all.take(i as int)),
        decreases stale@.len() - i,
    {
        proof {
            assert(all.take(i + 1).drop_last() =~= all.take(i as int));
            assert(all.take(i + 1).last() == pair_view(stale@[i as int]));
        }
        push_copy(&mut r, stale[i].0.as_str());
        push_copy(&mut r, stale[i].1.as_str());
        i += 1;
    }
    assert(all.take(i as int) =~= all);
    r
}

/// Reads the arguments of the helper process.
pub fn parse_refresh_helper_args(args: Vec<String>) -> (r: Option<Vec<(String, String)>>)
    ensures
        match r {
            Some(v) => paired(views(args@)) == Some(pairs_view(v@)),
            None => paired(views(args@)) is None,
        },
{
    if args.len() % 2 != 0 {
        return None;
    }
    let total: usize = args.len();
    let mut r: Vec<(String, String)> = Vec::new();
    let mut i: usize = 0;
    while i < total
        invariant
            i <= total,
            i % 2 == 0,
            total == args@.len(),
            total % 2 == 0,
            r@.len() * 2 == i,
            forall|k: int|
                0 <= k < r@.len() ==> pair_view(#[trigger] r@[k]) == (
                    args@[2 * k]@,
                    args@[2 * k + 1]@,
                ),
        decreases total - i,
    {
        r.push((copy_str(args[i].as_str()), copy_str(args[i + 1].as_str())));
        i += 2;
    }
    proof {
        let want = Seq::new(
            views(args@).len() / 2,
            |k: int| (views(args@)[2 * k], views(args@)[2 * k + 1]),
        );
        assert(pairs_view(r@) =~= want);
    }
    Some(r)
}

proof fn lemma_flattened(pairs: Seq<(Seq<char>, Seq<char>)>)
    ensures
        flattened(pairs).len() == 2 * pairs.len(),
        forall|i: int|
            0 <= i < pairs.len() ==> flattened(pairs)[2 * i] == (#[trigger] pairs[i]).0 && flattened(
                pairs,
            )[2 * i + 1] == pairs[i].1,
    decreases pairs.len(),
{
    if pairs.len() > 0 {
        let front = pairs.drop_last();
        lemma_flattened(front);
        assert forall|i: int| 0 <= i < pairs.len() implies flattened(pairs)[2 * i] == (
        #[trigger] pairs[i]).0 && flattened(pairs)[2 * i + 1] == pairs[i].1 by {
            if i < front.len() {
                assert(front[i] == pairs[i]);
                assert(flattened(pairs)[2 * i] == flattened(front)[2 * i]);
                assert(flattened(pairs)[2 * i + 1] == flattened(front)[2 * i + 1]);
            }
        }
    }
}

/// The helper process reads back what it is given.
pub proof fn law_helper_args_round_trip(pairs: Seq<(Seq<char>, Seq<char>)>)
    ensures
        paired(flattened(pairs)) == Some(pairs),
{
    lemma_flattened(pairs);
    let f = flattened(pairs);
    assert(f.len() % 2 == 0);
    let back = Seq::new(f.len() / 2, |i: int| (f[2 * i], f[2 * i + 1]));
    assert forall|i: int| 0 <= i < pairs.len() implies #[trigger] back[i] == pairs[i] by {
        assert(f[2 * i] == pairs[i].0);
    }
    assert(back =~= pairs);
}

/// What the helper process has to find out: nothing where its arguments do not pair up, where
/// there are none, or where the user does not want it.
pub fn run_refresh_helper(args: Vec<String>, opted_out: bool) -> (r: Option<Vec<(String, String)>>)
    ensures
        match r {
            Some(v) => !opted_out && v@.len() > 0 && paired(views(args@)) == Some(pairs_view(v@)),
            None => opted_out || args@.len() == 0 || paired(views(args@)) is None,
        },
{
    let empty = args.len() == 0;
    match parse_refresh_helper_args(args) {
        Some(v) => {
            assert(pairs_view(v@).len() == v@.len());
            if empty || opted_out || v.len() == 0 {
                None
            } else {
                Some(v)
            }
        },
        None => None,
    }
}

/// The user does not want hints: by one of two variables, or in the configuration.
pub fn is_opted_out(hints_variable_set: bool, updates_variable_set: bool, config_check: Option<bool>) -> (r: bool)
    ensures
        r == (hints_variable_set || updates_variable_set || config_check == Some(false)),
{
    hints_variable_set || updates_variable_set || match config_check {
        Some(check) => !check,
        None => false,
    }
}

} // verus!
