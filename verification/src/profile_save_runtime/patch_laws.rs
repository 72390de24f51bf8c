//! What a patch grants, in terms of what the run was denied.

use crate::capability::{AccessMode, FsCapability};
use crate::paths::{parent_path, path_within, same_path};
use crate::profile::Profile;
use crate::profile_save_runtime::patch::{
    all_denial_grants, belongs, denial_grants, grant_index, hint_grants, hint_reason,
    law_merging_keeps_both, merged, patch_is, patch_list, reads_preferences, shortened,
    suggestions, unsafe_rules, with_grant, Denial, Grants, PatchGrant, PatchList, PathHint,
    SandboxViolation,
};
use crate::query_ext::{covered_by_any, flag_target, PathFacts};
use crate::text::{lemma_in_either, lemma_in_filtered, lemma_in_sorted, lemma_in_views, views};
use vstd::prelude::*;

verus! {

/// What a run asked for and did not get.
pub struct Ask {
    pub path: Seq<char>,
    pub access: AccessMode,
    pub reason: Seq<char>,
    pub facts: PathFacts,
    pub canonical_path: Seq<char>,
    pub canonical_target: Seq<char>,
}

/// A denial as something that was asked for.
pub open spec fn denied_ask(d: Denial) -> Ask {
    Ask {
        path: d.path@,
        access: d.access,
        reason: d.reason@,
        facts: d.facts,
        canonical_path: d.canonical_path@,
        canonical_target: d.canonical_target@,
    }
}

/// A hint that counts as something that was asked for.
pub open spec fn hinted_ask(h: PathHint, reason: Seq<char>) -> Ask {
    Ask {
        path: h.path@,
        access: h.access,
        reason,
        facts: h.facts,
        canonical_path: h.canonical_path@,
        canonical_target: h.canonical_target@,
    }
}

/// What the hints ask for: each that the grants refuse, for the reason of the refusal.
pub open spec fn hinted_asks(h: Seq<PathHint>, caps: Seq<FsCapability>) -> Seq<Ask>
    decreases h.len(),
{
    if h.len() == 0 {
        Seq::empty()
    } else {
        match hint_reason(h.last(), caps) {
            Some(reason) => hinted_asks(h.drop_last(), caps).push(hinted_ask(h.last(), reason)),
            None => hinted_asks(h.drop_last(), caps),
        }
    }
}

/// All that was asked for, first by the denials and then by the hints.
pub open spec fn asks(d: Seq<Denial>, h: Seq<PathHint>, caps: Seq<FsCapability>) -> Seq<Ask> {
    d.map_values(|x: Denial| denied_ask(x)) + hinted_asks(h, caps)
}

/// The path to grant: the path itself where it exists, and else its parent, unless that is the root.
pub open spec fn target(a: Ask) -> Seq<char> {
    if a.facts.exists {
        a.path
    } else {
        match parent_path(a.path) {
            Some(parent) => if same_path(parent, "/"@) {
                a.path
            } else {
                parent
            },
            None => a.path,
        }
    }
}

/// Neither the path nor the path to grant lies below one that is to be ignored.
pub open spec fn counts(a: Ask, ignored: Seq<Seq<char>>) -> bool {
    &&& forall|i: int|
        0 <= i < ignored.len() ==> !path_within(a.canonical_path, #[trigger] ignored[i])
    &&& same_path(target(a), a.path) || forall|i: int|
        0 <= i < ignored.len() ==> !path_within(a.canonical_target, #[trigger] ignored[i])
}

/// Something that counts asks for reading a path.
pub open spec fn wants_read(a: Seq<Ask>, ignored: Seq<Seq<char>>, t: Seq<char>) -> bool {
    exists|i: int|
        0 <= i < a.len() && counts(#[trigger] a[i], ignored) && same_path(target(a[i]), t)
            && a[i].access != AccessMode::Write
}

/// Something that counts asks for writing a path.
pub open spec fn wants_write(a: Seq<Ask>, ignored: Seq<Seq<char>>, t: Seq<char>) -> bool {
    exists|i: int|
        0 <= i < a.len() && counts(#[trigger] a[i], ignored) && same_path(target(a[i]), t)
            && a[i].access != AccessMode::Read
}

/// Something that counts asks for a path as a file.
pub open spec fn wants_file(a: Seq<Ask>, ignored: Seq<Seq<char>>, t: Seq<char>) -> bool {
    exists|i: int|
        0 <= i < a.len() && counts(#[trigger] a[i], ignored) && same_path(target(a[i]), t)
            && a[i].facts.is_file
}

/// Something that counts was refused because the path is sensitive.
pub open spec fn wants_bypass(a: Seq<Ask>, ignored: Seq<Seq<char>>, t: Seq<char>) -> bool {
    exists|i: int|
        0 <= i < a.len() && counts(#[trigger] a[i], ignored) && same_path(target(a[i]), t)
            && a[i].reason == "sensitive_path"@
}

spec fn ask_grants(a: Seq<Ask>, ignored: Seq<Seq<char>>) -> Grants
    decreases a.len(),
{
    if a.len() == 0 {
        Seq::empty()
    } else {
        let x = a.last();
        denial_grants(
            ask_grants(a.drop_last(), ignored),
            x.path,
            x.access,
            x.reason,
            x.facts,
            x.canonical_path,
            x.canonical_target,
            ignored,
        )
    }
}

proof fn lemma_denials(d: Seq<Denial>, ignored: Seq<Seq<char>>)
    ensures
        all_denial_grants(d, ignored) == ask_grants(
            d.map_values(|x: Denial| denied_ask(x)),
            ignored,
        ),
    decreases d.len(),
{
    let a = d.map_values(|x: Denial| denied_ask(x));
    if d.len() > 0 {
        assert(a.drop_last() =~= d.drop_last().map_values(|x: Denial| denied_ask(x)));
        assert(a.last() == denied_ask(d.last()));
        lemma_denials(d.drop_last(), ignored);
    }
}

proof fn lemma_hints(d: Seq<Ask>, h: Seq<PathHint>, caps: Seq<FsCapability>, ignored: Seq<Seq<char>>)
    ensures
        hint_grants(ask_grants(d, ignored), h, caps, ignored) == ask_grants(
            d + hinted_asks(h, caps),
            ignored,
        ),
    decreases h.len(),
{
    if h.len() > 0 {
        lemma_hints(d, h.drop_last(), caps, ignored);
        let before = d + hinted_asks(h.drop_last(), caps);
        if let Some(reason) = hint_reason(h.last(), caps) {
            let x = hinted_ask(h.last(), reason);
            assert(d + hinted_asks(h, caps) =~= before.push(x));
            assert(before.push(x).drop_last() =~= before);
        }
    } else {
        assert(d + hinted_asks(h, caps) =~= d);
    }
}

// ---------------------------------------------------------------------------
// Grants
// ---------------------------------------------------------------------------

spec fn reads(a: AccessMode) -> bool {
    a != AccessMode::Write
}

spec fn writes(a: AccessMode) -> bool {
    a != AccessMode::Read
}

spec fn is_target(a: Seq<Ask>, ignored: Seq<Seq<char>>, t: Seq<char>) -> bool {
    exists|i: int| 0 <= i < a.len() && counts(#[trigger] a[i], ignored) && target(a[i]) == t
}

spec fn has_grant_on(g: Grants, t: Seq<char>) -> bool {
    exists|i: int| 0 <= i < g.len() && same_path((#[trigger] g[i]).0, t)
}

spec fn grant_is_asked(g: (Seq<char>, PatchGrant), a: Seq<Ask>, ignored: Seq<Seq<char>>) -> bool {
    &&& is_target(a, ignored, g.0)
    &&& reads(g.1.access) == wants_read(a, ignored, g.0)
    &&& writes(g.1.access) == wants_write(a, ignored, g.0)
    &&& g.1.is_file == wants_file(a, ignored, g.0)
    &&& g.1.bypass_protection == wants_bypass(a, ignored, g.0)
}

spec fn grants_are_asked(g: Grants, a: Seq<Ask>, ignored: Seq<Seq<char>>) -> bool {
    &&& forall|i: int| 0 <= i < g.len() ==> grant_is_asked(#[trigger] g[i], a, ignored)
    &&& forall|i: int, j: int|
        0 <= i < j < g.len() ==> !same_path((#[trigger] g[i]).0, (#[trigger] g[j]).0)
    &&& forall|k: int|
        0 <= k < a.len() && counts(#[trigger] a[k], ignored) ==> has_grant_on(g, target(a[k]))
}

/// What one more ask changes in what is wanted on a path.
proof fn lemma_one_more_ask(a: Seq<Ask>, ignored: Seq<Seq<char>>, t: Seq<char>)
    requires
        a.len() > 0,
    ensures
        ({
            let b = a.drop_last();
            let x = a.last();
            let on = counts(x, ignored) && same_path(target(x), t);
            &&& wants_read(a, ignored, t) == (wants_read(b, ignored, t) || on && reads(x.access))
            &&& wants_write(a, ignored, t) == (wants_write(b, ignored, t) || on && writes(x.access))
            &&& wants_file(a, ignored, t) == (wants_file(b, ignored, t) || on && x.facts.is_file)
            &&& wants_bypass(a, ignored, t) == (wants_bypass(b, ignored, t) || on && x.reason
                == "sensitive_path"@)
            &&& is_target(a, ignored, t) == (is_target(b, ignored, t) || counts(x, ignored)
                && target(x) == t)
        }),
{
    let b = a.drop_last();
    let x = a.last();
    assert(a[a.len() - 1] == x);
    assert forall|i: int| 0 <= i < b.len() implies b[i] == #[trigger] a[i] by {}
    assert forall|i: int| 0 <= i < b.len() implies a[i] == #[trigger] b[i] by {}
}

proof fn lemma_grant_index(g: Grants, t: Seq<char>)
    ensures
        ({
            let i = grant_index(g, t);
            &&& 0 <= i <= g.len()
            &&& i < g.len() ==> same_path(g[i].0, t)
            &&& forall|k: int| 0 <= k < i ==> !same_path((#[trigger] g[k]).0, t)
        }),
    decreases g.len(),
{
    if g.len() > 0 && !same_path(g[0].0, t) {
        let rest = g.skip(1);
        lemma_grant_index(rest, t);
        let n = grant_index(rest, t);
        assert forall|k: int| 0 <= k < n + 1 implies !same_path((#[trigger] g[k]).0, t) by {
            if k > 0 {
                assert(rest[k - 1] == g[k]);
            }
        }
    }
}

proof fn lemma_not_wanted(a: Seq<Ask>, ignored: Seq<Seq<char>>, g: Grants, t: Seq<char>)
    requires
        forall|k: int|
            0 <= k < a.len() && counts(#[trigger] a[k], ignored) ==> has_grant_on(g, target(a[k])),
        !has_grant_on(g, t),
    ensures
        !wants_read(a, ignored, t),
        !wants_write(a, ignored, t),
        !wants_file(a, ignored, t),
        !wants_bypass(a, ignored, t),
{
    assert forall|i: int|
        0 <= i < a.len() && counts(#[trigger] a[i], ignored) implies !same_path(
        target(a[i]),
        t,
    ) by {
        if same_path(target(a[i]), t) {
            let k = choose|k: int| 0 <= k < g.len() && same_path((#[trigger] g[k]).0, target(a[i]));
            assert(same_path(g[k].0, t));
        }
    }
}

proof fn lemma_counts(x: Ask, ignored: Seq<Seq<char>>)
    ensures
        flag_target(x.path, x.facts.exists) == target(x),
        counts(x, ignored) == !(covered_by_any(x.canonical_path, ignored) || !same_path(
            target(x),
            x.path,
        ) && covered_by_any(x.canonical_target, ignored)),
{
}

spec fn ask_grant(x: Ask) -> PatchGrant {
    PatchGrant {
        access: x.access,
        is_file: x.facts.is_file,
        bypass_protection: x.reason == "sensitive_path"@,
    }
}

proof fn lemma_kept_grant(a: Seq<Ask>, ignored: Seq<Seq<char>>, g: (Seq<char>, PatchGrant))
    requires
        a.len() > 0,
        grant_is_asked(g, a.drop_last(), ignored),
        !(counts(a.last(), ignored) && same_path(target(a.last()), g.0)),
    ensures
        grant_is_asked(g, a, ignored),
{
    lemma_one_more_ask(a, ignored, g.0);
}

proof fn lemma_merged_grant(
    a: Seq<Ask>,
    ignored: Seq<Seq<char>>,
    g: (Seq<char>, PatchGrant),
    r: (Seq<char>, PatchGrant),
)
    requires
        a.len() > 0,
        grant_is_asked(g, a.drop_last(), ignored),
        counts(a.last(), ignored),
        same_path(target(a.last()), g.0),
        r.0 == g.0,
        reads(r.1.access) == (reads(g.1.access) || reads(a.last().access)),
        writes(r.1.access) == (writes(g.1.access) || writes(a.last().access)),
        r.1.is_file == (g.1.is_file || a.last().facts.is_file),
        r.1.bypass_protection == (g.1.bypass_protection || a.last().reason == "sensitive_path"@),
    ensures
        grant_is_asked(r, a, ignored),
{
    lemma_one_more_ask(a, ignored, g.0);
}

proof fn lemma_new_grant(a: Seq<Ask>, ignored: Seq<Seq<char>>, g: Grants)
    requires
        a.len() > 0,
        grants_are_asked(g, a.drop_last(), ignored),
        counts(a.last(), ignored),
        !has_grant_on(g, target(a.last())),
    ensures
        grant_is_asked((target(a.last()), ask_grant(a.last())), a, ignored),
{
    let t = target(a.last());
    lemma_one_more_ask(a, ignored, t);
    lemma_not_wanted(a.drop_last(), ignored, g, t);
}

proof fn lemma_covered_still(a: Seq<Ask>, ignored: Seq<Seq<char>>, g: Grants, r: Grants)
    requires
        a.len() > 0,
        grants_are_asked(g, a.drop_last(), ignored),
        g.len() <= r.len(),
        forall|i: int| 0 <= i < g.len() ==> (#[trigger] r[i]).0 == g[i].0,
        counts(a.last(), ignored) ==> has_grant_on(r, target(a.last())),
    ensures
        forall|k: int|
            0 <= k < a.len() && counts(#[trigger] a[k], ignored) ==> has_grant_on(r, target(a[k])),
{
    let b = a.drop_last();
    assert forall|k: int| 0 <= k < a.len() && counts(#[trigger] a[k], ignored) implies has_grant_on(
        r,
        target(a[k]),
    ) by {
        if k < b.len() {
            assert(b[k] == a[k]);
            assert(has_grant_on(g, target(b[k])));
            let i = choose|i: int| 0 <= i < g.len() && same_path((#[trigger] g[i]).0, target(b[k]));
            assert(r[i].0 == g[i].0);
        }
    }
}

proof fn lemma_merge_step(a: Seq<Ask>, ignored: Seq<Seq<char>>, g: Grants, n: int)
    requires
        a.len() > 0,
        grants_are_asked(g, a.drop_last(), ignored),
        counts(a.last(), ignored),
        0 <= n < g.len(),
        n == grant_index(g, target(a.last())),
        same_path(g[n].0, target(a.last())),
    ensures
        grants_are_asked(with_grant(g, target(a.last()), ask_grant(a.last())), a, ignored),
{
    let t = target(a.last());
    let r = with_grant(g, t, ask_grant(a.last()));
    assert forall|i: int| 0 <= i < r.len() implies grant_is_asked(#[trigger] r[i], a, ignored) by {
        assert(grant_is_asked(g[i], a.drop_last(), ignored));
        if i == n {
            lemma_merged_grant(a, ignored, g[i], r[i]);
        } else {
            assert(r[i] == g[i]);
            if same_path(t, g[i].0) {
                if i < n {
                    assert(!same_path(g[i].0, g[n].0));
                } else {
                    assert(!same_path(g[n].0, g[i].0));
                }
            }
            lemma_kept_grant(a, ignored, g[i]);
        }
    }
    assert forall|i: int, j: int| 0 <= i < j < r.len() implies !same_path(
        (#[trigger] r[i]).0,
        (#[trigger] r[j]).0,
    ) by {
        assert(r[i].0 == g[i].0 && r[j].0 == g[j].0);
        assert(!same_path(g[i].0, g[j].0));
    }
    assert(same_path(r[n].0, t));
    lemma_covered_still(a, ignored, g, r);
}

proof fn lemma_push_step(a: Seq<Ask>, ignored: Seq<Seq<char>>, g: Grants)
    requires
        a.len() > 0,
        grants_are_asked(g, a.drop_last(), ignored),
        counts(a.last(), ignored),
        !has_grant_on(g, target(a.last())),
    ensures
        grants_are_asked(g.push((target(a.last()), ask_grant(a.last()))), a, ignored),
{
    let t = target(a.last());
    let r = g.push((t, ask_grant(a.last())));
    lemma_new_grant(a, ignored, g);
    assert forall|i: int| 0 <= i < g.len() implies !same_path((#[trigger] g[i]).0, t) by {}
    assert forall|i: int| 0 <= i < r.len() implies grant_is_asked(#[trigger] r[i], a, ignored) by {
        if i < g.len() {
            assert(r[i] == g[i]);
            assert(grant_is_asked(g[i], a.drop_last(), ignored));
            assert(!same_path(g[i].0, t));
            lemma_kept_grant(a, ignored, g[i]);
        }
    }
    assert forall|i: int, j: int| 0 <= i < j < r.len() implies !same_path(
        (#[trigger] r[i]).0,
        (#[trigger] r[j]).0,
    ) by {
        assert(r[i] == g[i]);
        if j < g.len() {
            assert(r[j] == g[j]);
        }
    }
    assert(r[g.len() as int].0 == t);
    lemma_covered_still(a, ignored, g, r);
}

proof fn lemma_asked(a: Seq<Ask>, ignored: Seq<Seq<char>>)
    ensures
        grants_are_asked(ask_grants(a, ignored), a, ignored),
    decreases a.len(),
{
    if a.len() > 0 {
        let b = a.drop_last();
        let x = a.last();
        let g = ask_grants(b, ignored);
        let r = ask_grants(a, ignored);
        let t = target(x);
        lemma_asked(b, ignored);
        lemma_counts(x, ignored);
        lemma_grant_index(g, t);
        let n = grant_index(g, t);
        if !counts(x, ignored) {
            assert(r == g);
            assert forall|i: int| 0 <= i < r.len() implies grant_is_asked(
                #[trigger] r[i],
                a,
                ignored,
            ) by {
                lemma_kept_grant(a, ignored, g[i]);
            }
            lemma_covered_still(a, ignored, g, r);
        } else {
            assert(r == with_grant(g, t, ask_grant(x)));
            if n < g.len() {
                lemma_merge_step(a, ignored, g, n);
            } else {
                assert(!has_grant_on(g, t));
                assert(r == g.push((t, ask_grant(x))));
                lemma_push_step(a, ignored, g);
            }
        }
    }
}

// ---------------------------------------------------------------------------
// Lists
// ---------------------------------------------------------------------------

/// What is wanted on a path, all taken together.
pub struct Wanted {
    pub read: bool,
    pub write: bool,
    pub file: bool,
    pub bypass: bool,
}

pub open spec fn wanted(a: Seq<Ask>, ignored: Seq<Seq<char>>, t: Seq<char>) -> Wanted {
    Wanted {
        read: wants_read(a, ignored, t),
        write: wants_write(a, ignored, t),
        file: wants_file(a, ignored, t),
        bypass: wants_bypass(a, ignored, t),
    }
}

/// A list of a profile.
pub enum ListKind {
    Allow,
    Read,
    Write,
    AllowFile,
    ReadFile,
    WriteFile,
    Bypass,
}

/// The list in which a path belongs on which something is wanted: by whether it is wanted as a file,
/// and for reading, for writing or for both. In addition the protection of the path is lifted where
/// that is wanted.
pub open spec fn fits(w: Wanted, kind: ListKind) -> bool {
    match kind {
        ListKind::Allow => !w.file && w.read && w.write,
        ListKind::Read => !w.file && w.read && !w.write,
        ListKind::Write => !w.file && !w.read && w.write,
        ListKind::AllowFile => w.file && w.read && w.write,
        ListKind::ReadFile => w.file && w.read && !w.write,
        ListKind::WriteFile => w.file && !w.read && w.write,
        ListKind::Bypass => w.bypass,
    }
}

/// The entries of a list of a profile.
pub open spec fn list_of(p: Profile, kind: ListKind) -> Seq<String> {
    match kind {
        ListKind::Allow => p.filesystem.allow@,
        ListKind::Read => p.filesystem.read@,
        ListKind::Write => p.filesystem.write@,
        ListKind::AllowFile => p.filesystem.allow_file@,
        ListKind::ReadFile => p.filesystem.read_file@,
        ListKind::WriteFile => p.filesystem.write_file@,
        ListKind::Bypass => p.filesystem.bypass_protection@,
    }
}

/// A path stands in a list because something that counts wants it there.
pub open spec fn is_wanted_in(
    text: Seq<char>,
    kind: ListKind,
    a: Seq<Ask>,
    ignored: Seq<Seq<char>>,
    home: Seq<char>,
) -> bool {
    exists|k: int|
        0 <= k < a.len() && counts(#[trigger] a[k], ignored) && text == shortened(
            target(a[k]),
            home,
        ) && fits(wanted(a, ignored, target(a[k])), kind)
}

/// A list holds a path, in some spelling.
pub open spec fn holds(v: Seq<String>, t: Seq<char>, home: Seq<char>) -> bool {
    exists|i: int, u: Seq<char>|
        0 <= i < v.len() && same_path(u, t) && (#[trigger] v[i])@ == #[trigger] shortened(u, home)
}

spec fn kind_list(kind: ListKind) -> PatchList {
    match kind {
        ListKind::Allow => PatchList::Directories(AccessMode::ReadWrite),
        ListKind::Read => PatchList::Directories(AccessMode::Read),
        ListKind::Write => PatchList::Directories(AccessMode::Write),
        ListKind::AllowFile => PatchList::Files(AccessMode::ReadWrite),
        ListKind::ReadFile => PatchList::Files(AccessMode::Read),
        ListKind::WriteFile => PatchList::Files(AccessMode::Write),
        ListKind::Bypass => PatchList::Bypass,
    }
}

proof fn lemma_belongs(g: (Seq<char>, PatchGrant), a: Seq<Ask>, ignored: Seq<Seq<char>>, kind: ListKind)
    requires
        grant_is_asked(g, a, ignored),
    ensures
        belongs(g.1, kind_list(kind)) == fits(wanted(a, ignored, g.0), kind),
{
}

proof fn lemma_in_patch_list(g: Grants, l: PatchList, home: Seq<char>, x: Seq<char>)
    ensures
        patch_list(g, l, home).contains(x) <==> exists|i: int|
            0 <= i < g.len() && belongs((#[trigger] g[i]).1, l) && shortened(g[i].0, home) == x,
{
    let keep = |e: (Seq<char>, PatchGrant)| belongs(e.1, l);
    let shape = |e: (Seq<char>, PatchGrant)| shortened(e.0, home);
    let kept = g.filter(keep);
    let all = kept.map_values(shape);
    lemma_in_sorted(all, x);
    if all.contains(x) {
        let i = choose|i: int| 0 <= i < all.len() && all[i] == x;
        assert(kept.contains(kept[i]));
        lemma_in_filtered(g, keep, kept[i]);
        let k = choose|k: int| 0 <= k < g.len() && g[k] == kept[i];
        assert(belongs(g[k].1, l) && shortened(g[k].0, home) == x);
    }
    if exists|i: int|
        0 <= i < g.len() && belongs((#[trigger] g[i]).1, l) && shortened(g[i].0, home) == x {
        let i = choose|i: int|
            0 <= i < g.len() && belongs((#[trigger] g[i]).1, l) && shortened(g[i].0, home) == x;
        assert(g.contains(g[i]));
        lemma_in_filtered(g, keep, g[i]);
        let k = choose|k: int| 0 <= k < kept.len() && kept[k] == g[i];
        assert(all[k] == x);
    }
}

proof fn lemma_held_is_wanted(
    v: Seq<String>,
    kind: ListKind,
    a: Seq<Ask>,
    ignored: Seq<Seq<char>>,
    home: Seq<char>,
    i: int,
)
    requires
        views(v) == patch_list(ask_grants(a, ignored), kind_list(kind), home),
        0 <= i < v.len(),
    ensures
        is_wanted_in(v[i]@, kind, a, ignored, home),
{
    let g = ask_grants(a, ignored);
    let x = v[i]@;
    lemma_asked(a, ignored);
    assert(views(v)[i] == x);
    assert(views(v).contains(x));
    lemma_in_patch_list(g, kind_list(kind), home, x);
    let n = choose|n: int|
        0 <= n < g.len() && belongs((#[trigger] g[n]).1, kind_list(kind)) && shortened(g[n].0, home)
            == x;
    assert(grant_is_asked(g[n], a, ignored));
    lemma_belongs(g[n], a, ignored, kind);
    let k = choose|k: int|
        0 <= k < a.len() && counts(#[trigger] a[k], ignored) && target(a[k]) == g[n].0;
    assert(counts(a[k], ignored) && x == shortened(target(a[k]), home));
}

proof fn lemma_grant_of_ask(
    g: Grants,
    kind: ListKind,
    a: Seq<Ask>,
    ignored: Seq<Seq<char>>,
    k: int,
) -> (n: int)
    requires
        grants_are_asked(g, a, ignored),
        0 <= k < a.len(),
        counts(a[k], ignored),
        fits(wanted(a, ignored, target(a[k])), kind),
    ensures
        0 <= n < g.len(),
        same_path(g[n].0, target(a[k])),
        belongs(g[n].1, kind_list(kind)),
{
    let t = target(a[k]);
    let n = choose|n: int| 0 <= n < g.len() && same_path((#[trigger] g[n]).0, t);
    assert(grant_is_asked(g[n], a, ignored));
    lemma_belongs(g[n], a, ignored, kind);
    lemma_same_wanted(a, ignored, g[n].0, t);
    n
}

proof fn lemma_grant_is_held(
    v: Seq<String>,
    g: Grants,
    l: PatchList,
    home: Seq<char>,
    n: int,
    t: Seq<char>,
)
    requires
        views(v) == patch_list(g, l, home),
        0 <= n < g.len(),
        belongs(g[n].1, l),
        same_path(g[n].0, t),
    ensures
        holds(v, t, home),
{
    let x = shortened(g[n].0, home);
    lemma_in_patch_list(g, l, home, x);
    assert(views(v).contains(x));
    lemma_in_views(v, x);
    let i = choose|i: int| 0 <= i < v.len() && (#[trigger] v[i])@ == x;
    assert(v[i]@ == shortened(g[n].0, home));
}

proof fn lemma_wanted_is_held(
    v: Seq<String>,
    kind: ListKind,
    a: Seq<Ask>,
    ignored: Seq<Seq<char>>,
    home: Seq<char>,
    k: int,
)
    requires
        views(v) == patch_list(ask_grants(a, ignored), kind_list(kind), home),
        0 <= k < a.len(),
        counts(a[k], ignored),
        fits(wanted(a, ignored, target(a[k])), kind),
    ensures
        holds(v, target(a[k]), home),
{
    lemma_asked(a, ignored);
    let n = lemma_grant_of_ask(ask_grants(a, ignored), kind, a, ignored, k);
    lemma_grant_is_held(v, ask_grants(a, ignored), kind_list(kind), home, n, target(a[k]));
}

proof fn lemma_grants_of_asks(
    d: Seq<Denial>,
    h: Seq<PathHint>,
    caps: Seq<FsCapability>,
    ignored: Seq<Seq<char>>,
)
    ensures
        hint_grants(all_denial_grants(d, ignored), h, caps, ignored) == ask_grants(
            asks(d, h, caps),
            ignored,
        ),
{
    lemma_denials(d, ignored);
    lemma_hints(d.map_values(|x: Denial| denied_ask(x)), h, caps, ignored);
}

proof fn lemma_list_of(p: Profile, g: Grants, home: Seq<char>, rules: Seq<Seq<char>>, kind: ListKind)
    requires
        patch_is(p, g, home, rules),
    ensures
        views(list_of(p, kind)) == patch_list(g, kind_list(kind), home),
{
}

/// A patch grants what the run was denied, no more and no less: each path on which something was
/// denied that is not to be ignored stands in the one list for directories or files, for reading,
/// writing or both, that covers what was asked for; its protection is lifted exactly where it was
/// refused as sensitive; and every entry of these lists is there for such a reason.
pub proof fn law_patch_grants_what_was_denied(
    p: Profile,
    d: Seq<Denial>,
    h: Seq<PathHint>,
    caps: Seq<FsCapability>,
    ignored: Seq<Seq<char>>,
    home: Seq<char>,
    rules: Seq<Seq<char>>,
    kind: ListKind,
)
    requires
        patch_is(p, hint_grants(all_denial_grants(d, ignored), h, caps, ignored), home, rules),
    ensures
        forall|i: int|
            0 <= i < list_of(p, kind).len() ==> is_wanted_in(
                (#[trigger] list_of(p, kind)[i])@,
                kind,
                asks(d, h, caps),
                ignored,
                home,
            ),
        forall|k: int|
            0 <= k < asks(d, h, caps).len() && counts(#[trigger] asks(d, h, caps)[k], ignored)
                && fits(
                wanted(asks(d, h, caps), ignored, target(asks(d, h, caps)[k])),
                kind,
            ) ==> holds(list_of(p, kind), target(asks(d, h, caps)[k]), home),
        p.filesystem.deny@.len() == 0,
        p.filesystem.suppress_save_prompt@.len() == 0,
{
    let g = hint_grants(all_denial_grants(d, ignored), h, caps, ignored);
    let a = asks(d, h, caps);
    let v = list_of(p, kind);
    lemma_grants_of_asks(d, h, caps, ignored);
    lemma_list_of(p, g, home, rules, kind);
    assert forall|i: int| 0 <= i < v.len() implies is_wanted_in(
        (#[trigger] v[i])@,
        kind,
        a,
        ignored,
        home,
    ) by {
        lemma_held_is_wanted(v, kind, a, ignored, home, i);
    }
    assert forall|k: int|
        0 <= k < a.len() && counts(#[trigger] a[k], ignored) && fits(
            wanted(a, ignored, target(a[k])),
            kind,
        ) implies holds(v, target(a[k]), home) by {
        lemma_wanted_is_held(v, kind, a, ignored, home, k);
    }
}

proof fn lemma_same_wanted(a: Seq<Ask>, ignored: Seq<Seq<char>>, t: Seq<char>, u: Seq<char>)
    requires
        same_path(t, u),
    ensures
        wanted(a, ignored, t) == wanted(a, ignored, u),
{
    assert forall|i: int| 0 <= i < a.len() implies same_path(target(#[trigger] a[i]), t)
        == same_path(target(a[i]), u) by {}
}

/// One denial on a directory that exists and is not to be ignored puts its path into the list for
/// its access, and into no other list.
pub proof fn law_one_denied_directory(
    p: Profile,
    d: Denial,
    caps: Seq<FsCapability>,
    ignored: Seq<Seq<char>>,
    home: Seq<char>,
    rules: Seq<Seq<char>>,
)
    requires
        patch_is(
            p,
            hint_grants(
                all_denial_grants(seq![d], ignored),
                Seq::<PathHint>::empty(),
                caps,
                ignored,
            ),
            home,
            rules,
        ),
        d.facts.exists,
        !d.facts.is_file,
        forall|i: int| 0 <= i < ignored.len() ==> !path_within(d.canonical_path@, #[trigger] ignored[i]),
    ensures
        ({
            let one = seq![shortened(d.path@, home)];
            let fs = p.filesystem;
            &&& views(fs.read@) == if d.access == AccessMode::Read {
                one
            } else {
                Seq::empty()
            }
            &&& views(fs.write@) == if d.access == AccessMode::Write {
                one
            } else {
                Seq::empty()
            }
            &&& views(fs.allow@) == if d.access == AccessMode::ReadWrite {
                one
            } else {
                Seq::empty()
            }
            &&& fs.read_file@.len() == 0
            &&& fs.write_file@.len() == 0
            &&& fs.allow_file@.len() == 0
            &&& views(fs.bypass_protection@) == if d.reason@ == "sensitive_path"@ {
                one
            } else {
                Seq::empty()
            }
        }),
{
    let none = Seq::<PathHint>::empty();
    let ds = seq![d];
    assert(ds.drop_last() =~= Seq::<Denial>::empty());
    assert(all_denial_grants(ds.drop_last(), ignored) == Seq::<(Seq<char>, PatchGrant)>::empty());
    let g = hint_grants(all_denial_grants(ds, ignored), none, caps, ignored);
    let x = denied_ask(d);
    lemma_counts(x, ignored);
    assert(counts(x, ignored));
    let e = PatchGrant {
        access: d.access,
        is_file: false,
        bypass_protection: d.reason@ == "sensitive_path"@,
    };
    assert(grant_index(Seq::<(Seq<char>, PatchGrant)>::empty(), d.path@) == 0);
    assert(g =~= seq![(d.path@, e)]);
    lemma_single(g, home, PatchList::Directories(AccessMode::Read));
    lemma_single(g, home, PatchList::Directories(AccessMode::Write));
    lemma_single(g, home, PatchList::Directories(AccessMode::ReadWrite));
    lemma_single(g, home, PatchList::Files(AccessMode::Read));
    lemma_single(g, home, PatchList::Files(AccessMode::Write));
    lemma_single(g, home, PatchList::Files(AccessMode::ReadWrite));
    lemma_single(g, home, PatchList::Bypass);
    assert(views(p.filesystem.read_file@).len() == p.filesystem.read_file@.len());
    assert(views(p.filesystem.write_file@).len() == p.filesystem.write_file@.len());
    assert(views(p.filesystem.allow_file@).len() == p.filesystem.allow_file@.len());
}

proof fn lemma_single(g: Grants, home: Seq<char>, l: PatchList)
    requires
        g.len() == 1,
    ensures
        patch_list(g, l, home) == if belongs(g[0].1, l) {
            seq![shortened(g[0].0, home)]
        } else {
            Seq::empty()
        },
{
    reveal(Seq::filter);
    let keep = |e: (Seq<char>, PatchGrant)| belongs(e.1, l);
    let shape = |e: (Seq<char>, PatchGrant)| shortened(e.0, home);
    assert(g.drop_last() =~= Seq::empty());
    assert(g.drop_last().filter(keep) =~= Seq::empty());
    let all = g.filter(keep).map_values(shape);
    if belongs(g[0].1, l) {
        assert(all =~= seq![shortened(g[0].0, home)]);
        assert(all.drop_last() =~= Seq::empty());
        assert(crate::text::sort_unique(all.drop_last()) =~= Seq::empty());
        assert(crate::text::sort_unique(all) =~= all);
    } else {
        assert(all =~= Seq::empty());
    }
}

/// The one rule that a patch can hold permits reading preferences, and it holds it exactly where
/// that was stopped.
pub proof fn law_rules_permit_preferences(v: Seq<SandboxViolation>)
    ensures
        unsafe_rules(v).len() <= 1,
        unsafe_rules(v).len() == 1 ==> unsafe_rules(v)[0] == "(allow user-preference-read)"@,
        unsafe_rules(v).len() == 1 <==> exists|i: int|
            0 <= i < v.len() && (#[trigger] v[i]).operation@ == "user-preference-read"@
                && v[i].target is Some && exists|rest: Seq<char>|
                (v[i].target->0)@ == #[trigger] ("kcfpreferences"@ + rest),
{
    assert forall|i: int| 0 <= i < v.len() && v[i].target is Some implies (
    crate::text::has_prefix((#[trigger] v[i].target->0)@, "kcfpreferences"@) <==> exists|
        rest: Seq<char>,
    |
        (v[i].target->0)@ == #[trigger] ("kcfpreferences"@ + rest)) by {
        crate::text::laws::law_parts_of_texts((v[i].target->0)@, "kcfpreferences"@);
    }
    if unsafe_rules(v).len() == 1 {
        let i = choose|i: int| 0 <= i < v.len() && reads_preferences(#[trigger] v[i]);
        assert(v[i].operation@ == "user-preference-read"@);
    }
    if exists|i: int|
        0 <= i < v.len() && (#[trigger] v[i]).operation@ == "user-preference-read"@
            && v[i].target is Some && exists|rest: Seq<char>|
            (v[i].target->0)@ == #[trigger] ("kcfpreferences"@ + rest) {
        let i = choose|i: int|
            0 <= i < v.len() && (#[trigger] v[i]).operation@ == "user-preference-read"@
                && v[i].target is Some && exists|rest: Seq<char>|
                (v[i].target->0)@ == #[trigger] ("kcfpreferences"@ + rest);
        crate::text::laws::law_parts_of_texts((v[i].target->0)@, "kcfpreferences"@);
        assert(reads_preferences(v[i]));
    }
}

// ---------------------------------------------------------------------------
// Merging
// ---------------------------------------------------------------------------

/// Each list of a profile into which a patch was merged holds what it held and what the same list of
/// the patch holds; all else is as it was.
pub proof fn law_merged_lists(after: Profile, before: Profile, patch: Profile, kind: ListKind, x: Seq<char>)
    requires
        merged(after, before, patch),
    ensures
        views(list_of(after, kind)).contains(x) <==> views(list_of(before, kind)).contains(x)
            || views(list_of(patch, kind)).contains(x),
        views(after.filesystem.suppress_save_prompt@).contains(x) <==> views(
            before.filesystem.suppress_save_prompt@,
        ).contains(x) || views(patch.filesystem.suppress_save_prompt@).contains(x),
        views(after.unsafe_macos_seatbelt_rules@).contains(x) <==> views(
            before.unsafe_macos_seatbelt_rules@,
        ).contains(x) || views(patch.unsafe_macos_seatbelt_rules@).contains(x),
        after.filesystem.deny == before.filesystem.deny,
        after.network == before.network,
        after.security == before.security,
        after.groups == before.groups,
        after.commands == before.commands,
        after.workdir == before.workdir,
        after.meta == before.meta,
        after.extends == before.extends,
        after.packs == before.packs,
{
    law_merging_keeps_both(views(list_of(before, kind)), views(list_of(patch, kind)), x);
    law_merging_keeps_both(
        views(before.filesystem.suppress_save_prompt@),
        views(patch.filesystem.suppress_save_prompt@),
        x,
    );
    law_merging_keeps_both(
        views(before.unsafe_macos_seatbelt_rules@),
        views(patch.unsafe_macos_seatbelt_rules@),
        x,
    );
}

/// What is no longer to be reported are the paths of all lists of a patch.
pub proof fn law_suggestions_are_all_paths(p: Profile, x: Seq<char>)
    ensures
        suggestions(p).contains(x) <==> {
            ||| views(p.filesystem.allow@).contains(x)
            ||| views(p.filesystem.read@).contains(x)
            ||| views(p.filesystem.write@).contains(x)
            ||| views(p.filesystem.allow_file@).contains(x)
            ||| views(p.filesystem.read_file@).contains(x)
            ||| views(p.filesystem.write_file@).contains(x)
        },
{
    let fs = p.filesystem;
    let a = views(fs.allow@);
    let b = a + views(fs.read@);
    let c = b + views(fs.write@);
    let d = c + views(fs.allow_file@);
    let e = d + views(fs.read_file@);
    lemma_in_sorted(e + views(fs.write_file@), x);
    lemma_in_either(e, views(fs.write_file@), x);
    lemma_in_either(d, views(fs.read_file@), x);
    lemma_in_either(c, views(fs.allow_file@), x);
    lemma_in_either(b, views(fs.write@), x);
    lemma_in_either(a, views(fs.read@), x);
}

/// A path below the home directory is written from there, behind a tilde; any other stays.
pub proof fn law_paths_from_home(
    home: Seq<Seq<char>>,
    rest: Seq<Seq<char>>,
    other: Seq<Seq<char>>,
)
    requires
        crate::paths::laws::plain(home),
        crate::paths::laws::plain(rest),
        crate::paths::laws::plain(other),
        home.len() > 0,
        other.len() > 0,
    ensures
        crate::profile_save_runtime::patch::shortened(
            crate::paths::laws::rooted(home + rest),
            crate::paths::laws::rooted(home),
        ) == seq!['~', '/'] + crate::text::laws::separated(rest, '/'),
        !home.is_prefix_of(other) ==> crate::profile_save_runtime::patch::shortened(
            crate::paths::laws::rooted(other),
            crate::paths::laws::rooted(home),
        ) == crate::paths::laws::rooted(other),
{
    reveal_strlit("~/");
    assert("~/"@ =~= seq!['~', '/']);
    crate::paths::laws::law_relative_paths(home, rest);
    crate::paths::laws::law_paths_below(other, home);
}

} // verus!
