//! What a run was denied, as additions to a profile.

use crate::capability::{AccessMode, FsCapability};
use crate::error::NonoError;
use crate::paths::{is_same_path, path_relative_to, path_starts_with, path_within, relative_to, same_path};
use crate::profile::{FilesystemConfig, Profile};
use crate::query_ext::{
    covered_by_any, flag_target, is_covered_by_any, path_answer, query_path, suggested_flag_parts,
    PathFacts, QueryResult, QueryView, Sensitivity,
};
use crate::text::{
    append_new, concat2, copy_str, extend_strings, has_prefix, lemma_filter_step,
    lemma_is_sort_unique, opt_view, push_copy, push_new, sort_unique,
    sorted_set, str_eq, str_starts_with, views,
};
use vstd::prelude::*;

verus! {

/// The rule that permits reading the user's preferences.
pub const USER_PREFERENCES_SEATBELT_RULE: &'static str = "(allow user-preference-read)";

/// An access that was denied: what was asked for and why it was refused, what is at the path, and
/// the path and the path to grant with all links followed.
#[derive(Debug)]
pub struct Denial {
    pub path: String,
    pub access: AccessMode,
    pub reason: String,
    pub facts: PathFacts,
    pub canonical_path: String,
    pub canonical_target: String,
}

/// A path that the output of the command speaks of, with what the rules say of it.
#[derive(Debug)]
pub struct PathHint {
    pub path: String,
    pub access: AccessMode,
    pub facts: PathFacts,
    pub canonical_path: String,
    pub canonical_target: String,
    pub sensitivity: Sensitivity,
}

/// An operation other than on files that the sandbox stopped.
#[derive(Debug)]
pub struct SandboxViolation {
    pub operation: String,
    pub target: Option<String>,
}

/// What is to be granted on a path.
#[derive(Clone, Copy, Debug, PartialEq, Eq, Structural)]
pub struct PatchGrant {
    pub access: AccessMode,
    pub is_file: bool,
    pub bypass_protection: bool,
}

/// Grants by path.
pub type Grants = Seq<(Seq<char>, PatchGrant)>;

pub open spec fn grant_views(v: Seq<(String, PatchGrant)>) -> Grants {
    v.map_values(|g: (String, PatchGrant)| (g.0@, g.1))
}

/// Two accesses as one.
pub open spec fn merged_access(a: AccessMode, b: AccessMode) -> AccessMode {
    if a == b {
        a
    } else {
        AccessMode::ReadWrite
    }
}

pub fn merge_access(a: AccessMode, b: AccessMode) -> (r: AccessMode)
    ensures
        r == merged_access(a, b),
{
    if a == b {
        a
    } else {
        AccessMode::ReadWrite
    }
}

/// Position of the grant on a path; the number of grants where there is none.
pub open spec fn grant_index(grants: Grants, path: Seq<char>) -> int
    decreases grants.len(),
{
    if grants.len() == 0 || same_path(grants[0].0, path) {
        0
    } else {
        1 + grant_index(grants.skip(1), path)
    }
}

/// Grants with one more: merged with the one on the same path, or added.
pub open spec fn with_grant(grants: Grants, target: Seq<char>, g: PatchGrant) -> Grants {
    let i = grant_index(grants, target);
    if 0 <= i < grants.len() {
        let e = grants[i].1;
        grants.update(
            i,
            (
                grants[i].0,
                PatchGrant {
                    access: merged_access(e.access, g.access),
                    is_file: e.is_file || g.is_file,
                    bypass_protection: e.bypass_protection || g.bypass_protection,
                },
            ),
        )
    } else {
        grants.push((target, g))
    }
}

/// The user does not want to hear of a denial: its path, or the path to grant, lies below one that
/// is to be ignored.
pub open spec fn is_ignored(
    path: Seq<char>,
    target: Seq<char>,
    canonical_path: Seq<char>,
    canonical_target: Seq<char>,
    ignored: Seq<Seq<char>>,
) -> bool {
    covered_by_any(canonical_path, ignored) || !same_path(target, path) && covered_by_any(
        canonical_target,
        ignored,
    )
}

/// What one denial adds.
pub open spec fn denial_grants(
    grants: Grants,
    path: Seq<char>,
    access: AccessMode,
    reason: Seq<char>,
    facts: PathFacts,
    canonical_path: Seq<char>,
    canonical_target: Seq<char>,
    ignored: Seq<Seq<char>>,
) -> Grants {
    let target = flag_target(path, facts.exists);
    if is_ignored(path, target, canonical_path, canonical_target, ignored) {
        grants
    } else {
        with_grant(
            grants,
            target,
            PatchGrant {
                access,
                is_file: facts.is_file,
                bypass_protection: reason == "sensitive_path"@,
            },
        )
    }
}

fn find_grant(grants: &Vec<(String, PatchGrant)>, path: &str) -> (r: usize)
    ensures
        r == grant_index(grant_views(grants@), path@),
        r <= grants@.len(),
{
    let ghost all = grant_views(grants@);
    let mut i: usize = 0;
    assert(all.skip(0) =~= all);
    while i < grants.len()
        invariant
            i <= grants@.len(),
            all == grant_views(grants@),
            grant_index(all, path@) == i + grant_index(all.skip(i as int), path@),
        decreases grants@.len() - i,
    {
        proof {
            assert(all.skip(i as int)[0].0 == grants@[i as int].0@);
            assert(all.skip(i as int).skip(1) =~= all.skip(i + 1));
        }
        if is_same_path(grants[i].0.as_str(), path) {
            return i;
        }
        i += 1;
    }
    i
}

fn put_grant(grants: &mut Vec<(String, PatchGrant)>, target: String, g: PatchGrant)
    ensures
        grant_views(final(grants)@) == with_grant(grant_views(old(grants)@), target@, g),
{
    let i = find_grant(grants, target.as_str());
    let ghost before = grant_views(grants@);
    if i < grants.len() {
        let (path, e) = grants.remove(i);
        let merged = PatchGrant {
            access: merge_access(e.access, g.access),
            is_file: e.is_file || g.is_file,
            bypass_protection: e.bypass_protection || g.bypass_protection,
        };
        grants.insert(i, (path, merged));
        assert(grant_views(grants@) =~= with_grant(before, target@, g));
    } else {
        grants.push((target, g));
        assert(grant_views(grants@) =~= with_grant(before, target@, g));
    }
}

fn add_patch_grant(
    grants: &mut Vec<(String, PatchGrant)>,
    path: &str,
    access: AccessMode,
    reason: &str,
    facts: PathFacts,
    canonical_path: &str,
    canonical_target: &str,
    ignored: &Vec<String>,
)
    ensures
        grant_views(final(grants)@) == denial_grants(
            grant_views(old(grants)@),
            path@,
            access,
            reason@,
            facts,
            canonical_path@,
            canonical_target@,
            views(ignored@),
        ),
{
    let (_, target) = suggested_flag_parts(path, access, facts);
    if is_covered_by_any(canonical_path, ignored) || (!is_same_path(target.as_str(), path)
        && is_covered_by_any(canonical_target, ignored)) {
        return ;
    }
    let g = PatchGrant {
        access,
        is_file: facts.is_file,
        bypass_protection: str_eq(reason, "sensitive_path"),
    };
    put_grant(grants, target, g);
}

/// What all denials add.
pub open spec fn all_denial_grants(d: Seq<Denial>, ignored: Seq<Seq<char>>) -> Grants
    decreases d.len(),
{
    if d.len() == 0 {
        Seq::empty()
    } else {
        let x = d.last();
        denial_grants(
            all_denial_grants(d.drop_last(), ignored),
            x.path@,
            x.access,
            x.reason@,
            x.facts,
            x.canonical_path@,
            x.canonical_target@,
            ignored,
        )
    }
}

/// The reason for which a hint counts: that of the refusal that the grants give.
pub open spec fn hint_reason(h: PathHint, caps: Seq<FsCapability>) -> Option<Seq<char>> {
    match path_answer(
        h.canonical_path@,
        h.access,
        caps,
        Seq::empty(),
        h.sensitivity,
        h.facts,
    ) {
        Ok(QueryView::Denied { reason, .. }) => if reason == "sensitive_path"@ || reason
            == "insufficient_access"@ || reason == "path_not_granted"@ {
            Some(reason)
        } else {
            None
        },
        _ => None,
    }
}

fn reason_of_hint(h: &PathHint, caps: &Vec<FsCapability>) -> (r: Option<String>)
    ensures
        opt_view(r) == hint_reason(*h, caps@),
{
    let none: Vec<String> = Vec::new();
    assert(views(none@) =~= Seq::<Seq<char>>::empty());
    match query_path(h.canonical_path.as_str(), h.access, caps, &none, &h.sensitivity, h.facts) {
        Ok(QueryResult::Denied {
            reason,
            details: _,
            policy_source: _,
            matching_capability: _,
            suggested_flag: _,
        }) => {
            if str_eq(reason.as_str(), "sensitive_path") || str_eq(
                reason.as_str(),
                "insufficient_access",
            ) || str_eq(reason.as_str(), "path_not_granted") {
                Some(reason)
            } else {
                None
            }
        },
        _ => None,
    }
}

/// What all hints add to the grants so far.
pub open spec fn hint_grants(
    start: Grants,
    h: Seq<PathHint>,
    caps: Seq<FsCapability>,
    ignored: Seq<Seq<char>>,
) -> Grants
    decreases h.len(),
{
    if h.len() == 0 {
        start
    } else {
        let x = h.last();
        let before = hint_grants(start, h.drop_last(), caps, ignored);
        match hint_reason(x, caps) {
            Some(reason) => denial_grants(
                before,
                x.path@,
                x.access,
                reason,
                x.facts,
                x.canonical_path@,
                x.canonical_target@,
                ignored,
            ),
            None => before,
        }
    }
}

fn collect_grants(
    denials: &Vec<Denial>,
    hints: &Vec<PathHint>,
    caps: &Vec<FsCapability>,
    ignored: &Vec<String>,
) -> (r: Vec<(String, PatchGrant)>)
    ensures
        grant_views(r@) == hint_grants(
            all_denial_grants(denials@, views(ignored@)),
            hints@,
            caps@,
            views(ignored@),
        ),
{
    let mut grants: Vec<(String, PatchGrant)> = Vec::new();
    let ghost skip = views(ignored@);
    let mut i: usize = 0;
    assert(grant_views(grants@) =~= all_denial_grants(denials@.take(0), skip));
    while i < denials.len()
        invariant
            i <= denials@.len(),
            skip == views(ignored@),
            grant_views(grants@) == all_denial_grants(denials@.take(i as int), skip),
        decreases denials@.len() - i,
    {
        proof {
            assert(denials@.take(i + 1).drop_last() =~= denials@.take(i as int));
            assert(denials@.take(i + 1).last() == denials@[i as int]);
        }
        let d = &denials[i];
        add_patch_grant(
            &mut grants,
            d.path.as_str(),
            d.access,
            d.reason.as_str(),
            d.facts,
            d.canonical_path.as_str(),
            d.canonical_target.as_str(),
            ignored,
        );
        i += 1;
    }
    assert(denials@.take(i as int) =~= denials@);
    let ghost start = grant_views(grants@);
    let mut k: usize = 0;
    assert(start == hint_grants(start, hints@.take(0), caps@, skip));
    while k < hints.len()
        invariant
            k <= hints@.len(),
            skip == views(ignored@),
            grant_views(grants@) == hint_grants(start, hints@.take(k as int), caps@, skip),
        decreases hints@.len() - k,
    {
        proof {
            assert(hints@.take(k + 1).drop_last() =~= hints@.take(k as int));
            assert(hints@.take(k + 1).last() == hints@[k as int]);
        }
        let h = &hints[k];
        if let Some(reason) = reason_of_hint(h, caps) {
            add_patch_grant(
                &mut grants,
                h.path.as_str(),
                h.access,
                reason.as_str(),
                h.facts,
                h.canonical_path.as_str(),
                h.canonical_target.as_str(),
                ignored,
            );
        }
        k += 1;
    }
    assert(hints@.take(k as int) =~= hints@);
    grants
}

/// A path as a profile spells it: from the home directory where it lies there.
pub open spec fn shortened(path: Seq<char>, home: Seq<char>) -> Seq<char> {
    if path_within(path, home) {
        "~/"@ + relative_to(path, home)
    } else {
        path
    }
}

pub fn shorten_path_for_profile(path: &str, home: &str) -> (r: String)
    ensures
        r@ == shortened(path@, home@),
{
    if path_starts_with(path, home) {
        let rest = path_relative_to(path, home);
        concat2("~/", rest.as_str())
    } else {
        copy_str(path)
    }
}

/// The list of a profile that a grant belongs to.
#[derive(Clone, Copy, Debug, PartialEq, Eq, Structural)]
pub enum PatchList {
    Files(AccessMode),
    Directories(AccessMode),
    Bypass,
}

pub open spec fn belongs(g: PatchGrant, l: PatchList) -> bool {
    match l {
        PatchList::Files(a) => g.is_file && g.access == a,
        PatchList::Directories(a) => !g.is_file && g.access == a,
        PatchList::Bypass => g.bypass_protection,
    }
}

fn is_in_list(g: PatchGrant, l: PatchList) -> (r: bool)
    ensures
        r == belongs(g, l),
{
    match l {
        PatchList::Files(a) => g.is_file && g.access == a,
        PatchList::Directories(a) => !g.is_file && g.access == a,
        PatchList::Bypass => g.bypass_protection,
    }
}

/// The paths of one list, in order, each once.
pub open spec fn patch_list(grants: Grants, l: PatchList, home: Seq<char>) -> Seq<Seq<char>> {
    sort_unique(
        grants.filter(|g: (Seq<char>, PatchGrant)| belongs(g.1, l)).map_values(
            |g: (Seq<char>, PatchGrant)| shortened(g.0, home),
        ),
    )
}

fn list_paths(grants: &Vec<(String, PatchGrant)>, l: PatchList, home: &str) -> (r: Vec<String>)
    ensures
        views(r@) == patch_list(grant_views(grants@), l, home@),
{
    let ghost all = grant_views(grants@);
    let ghost keep = |g: (Seq<char>, PatchGrant)| belongs(g.1, l);
    let ghost shape = |g: (Seq<char>, PatchGrant)| shortened(g.0, home@);
    let mut v: Vec<String> = Vec::new();
    let mut i: usize = 0;
    assert(views(v@) =~= all.take(0).filter(keep).map_values(shape));
    while i < grants.len()
        invariant
            i <= grants@.len(),
            all == grant_views(grants@),
            keep == (|g: (Seq<char>, PatchGrant)| belongs(g.1, l)),
            shape == (|g: (Seq<char>, PatchGrant)| shortened(g.0, home@)),
            views(v@) == all.take(i as int).filter(keep).map_values(shape),
        decreases grants@.len() - i,
    {
        let ghost done = all.take(i as int).filter(keep);
        proof {
            lemma_filter_step(all, i as int, keep);
            assert(all[i as int] == (grants@[i as int].0@, grants@[i as int].1));
            assert(done.push(all[i as int]).map_values(shape) =~= done.map_values(shape).push(
                shape(all[i as int]),
            ));
        }
        if is_in_list(grants[i].1, l) {
            let s = shorten_path_for_profile(grants[i].0.as_str(), home);
            push_copy(&mut v, s.as_str());
        }
        i += 1;
    }
    assert(all.take(i as int) =~= all);
    let r = sorted_set(&v);
    proof {
        lemma_is_sort_unique(views(r@), views(v@));
    }
    r
}

// ---------------------------------------------------------------------------
// System services
// ---------------------------------------------------------------------------

/// A violation that the rule on preferences would permit.
pub open spec fn reads_preferences(v: SandboxViolation) -> bool {
    v.operation@ == "user-preference-read"@ && v.target is Some && has_prefix(
        (v.target->0)@,
        "kcfpreferences"@,
    )
}

fn is_user_preference_read_sandbox_violation(v: &SandboxViolation) -> (r: bool)
    ensures
        r == reads_preferences(*v),
{
    str_eq(v.operation.as_str(), "user-preference-read") && match &v.target {
        Some(t) => str_starts_with(t.as_str(), "kcfpreferences"),
        None => false,
    }
}

pub open spec fn any_saveable(v: Seq<SandboxViolation>) -> bool {
    exists|i: int| 0 <= i < v.len() && reads_preferences(#[trigger] v[i])
}

/// Whether a violation is among those that a rule would permit.
pub fn has_saveable_system_service_rules(violations: &Vec<SandboxViolation>) -> (r: bool)
    ensures
        r == any_saveable(violations@),
{
    let mut i: usize = 0;
    while i < violations.len()
        invariant
            i <= violations@.len(),
            forall|k: int| 0 <= k < i ==> !reads_preferences(#[trigger] violations@[k]),
        decreases violations@.len() - i,
    {
        if is_user_preference_read_sandbox_violation(&violations[i]) {
            return true;
        }
        i += 1;
    }
    false
}

pub open spec fn unsafe_rules(v: Seq<SandboxViolation>) -> Seq<Seq<char>> {
    if any_saveable(v) {
        seq![USER_PREFERENCES_SEATBELT_RULE@]
    } else {
        Seq::empty()
    }
}

fn unsafe_seatbelt_rules_from_sandbox_violations(violations: &Vec<SandboxViolation>) -> (r: Vec<
    String,
>)
    ensures
        views(r@) == unsafe_rules(violations@),
{
    let mut r: Vec<String> = Vec::new();
    if has_saveable_system_service_rules(violations) {
        push_copy(&mut r, USER_PREFERENCES_SEATBELT_RULE);
    }
    assert(views(r@) =~= unsafe_rules(violations@));
    r
}

// ---------------------------------------------------------------------------
// The patch
// ---------------------------------------------------------------------------

/// Apart from its paths and raw rules, nothing is set in a profile.
pub open spec fn sets_only_paths_and_rules(p: Profile) -> bool {
    &&& p.meta.is_unset()
    &&& p.extends is None
    &&& p.groups.is_unset()
    &&& p.commands.is_unset()
    &&& p.security.is_unset()
    &&& p.linux.is_unset()
    &&& p.network.is_unset()
    &&& p.workdir.is_unset()
    &&& p.rollback.is_unset()
    &&& p.env_credentials.is_unset()
    &&& p.hooks.is_unset()
    &&& p.open_urls is None
    &&& p.environment is None
    &&& p.allow_launch_services is None
    &&& p.allow_gpu is None
    &&& p.allow_parent_of_protected is None
    &&& p.packs@.len() == 0
}

/// The patch for grants and raw rules.
pub open spec fn patch_is(p: Profile, grants: Grants, home: Seq<char>, rules: Seq<Seq<char>>) -> bool {
    &&& sets_only_paths_and_rules(p)
    &&& views(p.filesystem.allow@) == patch_list(
        grants,
        PatchList::Directories(AccessMode::ReadWrite),
        home,
    )
    &&& views(p.filesystem.read@) == patch_list(
        grants,
        PatchList::Directories(AccessMode::Read),
        home,
    )
    &&& views(p.filesystem.write@) == patch_list(
        grants,
        PatchList::Directories(AccessMode::Write),
        home,
    )
    &&& views(p.filesystem.allow_file@) == patch_list(
        grants,
        PatchList::Files(AccessMode::ReadWrite),
        home,
    )
    &&& views(p.filesystem.read_file@) == patch_list(
        grants,
        PatchList::Files(AccessMode::Read),
        home,
    )
    &&& views(p.filesystem.write_file@) == patch_list(
        grants,
        PatchList::Files(AccessMode::Write),
        home,
    )
    &&& views(p.filesystem.bypass_protection@) == patch_list(grants, PatchList::Bypass, home)
    &&& p.filesystem.deny@.len() == 0
    &&& p.filesystem.suppress_save_prompt@.len() == 0
    &&& views(p.unsafe_macos_seatbelt_rules@) == rules
}

/// Builds what a profile would have to grant for a run to get what it was denied. The home
/// directory is only needed where a path is to be granted.
pub fn build_run_profile_patch(
    denials: &Vec<Denial>,
    hints: &Vec<PathHint>,
    caps: &Vec<FsCapability>,
    violations: &Vec<SandboxViolation>,
    ignored: &Vec<String>,
    home: &Result<String, NonoError>,
) -> (r: Result<Option<Profile>, NonoError>)
    ensures
        ({
            let grants = hint_grants(
                all_denial_grants(denials@, views(ignored@)),
                hints@,
                caps@,
                views(ignored@),
            );
            let rules = unsafe_rules(violations@);
            match r {
                Err(e) => grants.len() > 0 && home is Err && e@ == (home->Err_0)@,
                Ok(None) => grants.len() == 0 && rules.len() == 0,
                Ok(Some(p)) => {
                    &&& grants.len() > 0 || rules.len() > 0
                    &&& grants.len() > 0 ==> home is Ok
                    &&& patch_is(
                        p,
                        grants,
                        match *home {
                            Ok(h) => h@,
                            Err(_) => ""@,
                        },
                        rules,
                    )
                },
            }
        }),
{
    let grants = collect_grants(denials, hints, caps, ignored);
    let rules = unsafe_seatbelt_rules_from_sandbox_violations(violations);
    assert(grant_views(grants@).len() == grants@.len());
    assert(views(rules@).len() == rules@.len());
    if grants.len() == 0 && rules.len() == 0 {
        return Ok(None);
    }
    let home_path = match home {
        Ok(h) => h.as_str(),
        Err(e) => {
            if grants.len() > 0 {
                return Err(e.copy());
            }
            ""
        },
    };
    let filesystem = FilesystemConfig {
        allow: list_paths(&grants, PatchList::Directories(AccessMode::ReadWrite), home_path),
        read: list_paths(&grants, PatchList::Directories(AccessMode::Read), home_path),
        write: list_paths(&grants, PatchList::Directories(AccessMode::Write), home_path),
        allow_file: list_paths(&grants, PatchList::Files(AccessMode::ReadWrite), home_path),
        read_file: list_paths(&grants, PatchList::Files(AccessMode::Read), home_path),
        write_file: list_paths(&grants, PatchList::Files(AccessMode::Write), home_path),
        deny: Vec::new(),
        bypass_protection: list_paths(&grants, PatchList::Bypass, home_path),
        suppress_save_prompt: Vec::new(),
    };
    let mut patch = Profile::default();
    patch.filesystem = filesystem;
    patch.unsafe_macos_seatbelt_rules = rules;
    Ok(Some(patch))
}

/// Only a denial on the ground that the path is sensitive lifts a protection.
pub proof fn law_only_sensitive_paths_bypass(
    start: Grants,
    path: Seq<char>,
    access: AccessMode,
    reason: Seq<char>,
    facts: PathFacts,
    canonical_path: Seq<char>,
    canonical_target: Seq<char>,
    ignored: Seq<Seq<char>>,
)
    requires
        forall|i: int| 0 <= i < start.len() ==> !(#[trigger] start[i]).1.bypass_protection,
        reason != "sensitive_path"@,
    ensures
        ({
            let after = denial_grants(
                start,
                path,
                access,
                reason,
                facts,
                canonical_path,
                canonical_target,
                ignored,
            );
            forall|i: int| 0 <= i < after.len() ==> !(#[trigger] after[i]).1.bypass_protection
        }),
{
}

/// A denial that is to be ignored adds nothing.
pub proof fn law_ignored_denials_add_nothing(d: Seq<Denial>, ignored: Seq<Seq<char>>)
    requires
        forall|i: int| 0 <= i < d.len() ==> covered_by_any((#[trigger] d[i]).canonical_path@, ignored),
    ensures
        all_denial_grants(d, ignored).len() == 0,
    decreases d.len(),
{
    if d.len() > 0 {
        assert forall|i: int| 0 <= i < d.drop_last().len() implies covered_by_any(
            (#[trigger] d.drop_last()[i]).canonical_path@,
            ignored,
        ) by {
            assert(d.drop_last()[i] == d[i]);
        }
        law_ignored_denials_add_nothing(d.drop_last(), ignored);
        assert(covered_by_any(d[d.len() - 1].canonical_path@, ignored));
    }
}

/// Whether a patch goes beyond what grants can express.
pub fn patch_has_policy_overrides(patch: &Profile) -> (r: bool)
    ensures
        r == (patch.filesystem.bypass_protection@.len() > 0
            || patch.unsafe_macos_seatbelt_rules@.len() > 0),
{
    patch.filesystem.bypass_protection.len() > 0 || patch.unsafe_macos_seatbelt_rules.len() > 0
}

/// A patch that only says which denials are not to be reported.
pub open spec fn suppression_only(p: Profile) -> bool {
    &&& p.filesystem.suppress_save_prompt@.len() > 0
    &&& p.filesystem.allow@.len() == 0
    &&& p.filesystem.read@.len() == 0
    &&& p.filesystem.write@.len() == 0
    &&& p.filesystem.allow_file@.len() == 0
    &&& p.filesystem.read_file@.len() == 0
    &&& p.filesystem.write_file@.len() == 0
    &&& p.filesystem.bypass_protection@.len() == 0
    &&& p.unsafe_macos_seatbelt_rules@.len() == 0
}

pub fn patch_is_suppression_only(patch: &Profile) -> (r: bool)
    ensures
        r == suppression_only(*patch),
{
    patch.filesystem.suppress_save_prompt.len() > 0 && patch.filesystem.allow.len() == 0
        && patch.filesystem.read.len() == 0 && patch.filesystem.write.len() == 0
        && patch.filesystem.allow_file.len() == 0 && patch.filesystem.read_file.len() == 0
        && patch.filesystem.write_file.len() == 0 && patch.filesystem.bypass_protection.len() == 0
        && patch.unsafe_macos_seatbelt_rules.len() == 0
}

/// All paths that a patch grants, in order, each once.
pub open spec fn suggestions(p: Profile) -> Seq<Seq<char>> {
    let fs = p.filesystem;
    sort_unique(
        views(fs.allow@) + views(fs.read@) + views(fs.write@) + views(fs.allow_file@) + views(
            fs.read_file@,
        ) + views(fs.write_file@),
    )
}

fn push_all(v: &mut Vec<String>, more: &Vec<String>)
    ensures
        views(final(v)@) == views(old(v)@) + views(more@),
{
    extend_strings(v, more);
    assert(views(v@) =~= views(old(v)@) + views(more@));
}

fn grant_patch_path_suggestions(patch: &Profile) -> (r: Vec<String>)
    ensures
        views(r@) == suggestions(*patch),
{
    let fs = &patch.filesystem;
    let mut v: Vec<String> = Vec::new();
    push_all(&mut v, &fs.allow);
    push_all(&mut v, &fs.read);
    push_all(&mut v, &fs.write);
    push_all(&mut v, &fs.allow_file);
    push_all(&mut v, &fs.read_file);
    push_all(&mut v, &fs.write_file);
    assert(views(v@) =~= views(fs.allow@) + views(fs.read@) + views(fs.write@) + views(
        fs.allow_file@,
    ) + views(fs.read_file@) + views(fs.write_file@));
    let r = sorted_set(&v);
    proof {
        lemma_is_sort_unique(views(r@), views(v@));
    }
    r
}

/// The patch that keeps the denials and stops reporting them; none where no path is granted.
pub fn build_suppress_save_prompt_patch(grant_patch: &Profile) -> (r: Option<Profile>)
    ensures
        match r {
            None => suggestions(*grant_patch).len() == 0,
            Some(p) => {
                &&& suggestions(*grant_patch).len() > 0
                &&& sets_only_paths_and_rules(p)
                &&& suppression_only(p)
                &&& views(p.filesystem.suppress_save_prompt@) == suggestions(*grant_patch)
                &&& p.filesystem.deny@.len() == 0
            },
        },
{
    let paths = grant_patch_path_suggestions(grant_patch);
    assert(views(paths@).len() == paths@.len());
    if paths.len() == 0 {
        return None;
    }
    let mut patch = Profile::default();
    patch.filesystem.suppress_save_prompt = paths;
    Some(patch)
}

/// Two lists as one, in order, each entry once.
pub open spec fn merged_list(a: Seq<Seq<char>>, b: Seq<Seq<char>>) -> Seq<Seq<char>> {
    append_new(append_new(Seq::empty(), a), b)
}

pub fn dedup_append(a: &Vec<String>, b: &Vec<String>) -> (r: Vec<String>)
    ensures
        views(r@) == merged_list(views(a@), views(b@)),
{
    let mut r: Vec<String> = Vec::new();
    assert(views(r@) =~= Seq::<Seq<char>>::empty());
    push_new(&mut r, a);
    push_new(&mut r, b);
    r
}

/// What a patch leaves alone is the same in both profiles.
pub open spec fn same_besides_patch(a: Profile, b: Profile) -> bool {
    &&& a.meta == b.meta
    &&& a.extends == b.extends
    &&& a.groups == b.groups
    &&& a.commands == b.commands
    &&& a.security == b.security
    &&& a.linux == b.linux
    &&& a.network == b.network
    &&& a.workdir == b.workdir
    &&& a.rollback == b.rollback
    &&& a.env_credentials == b.env_credentials
    &&& a.hooks == b.hooks
    &&& a.open_urls == b.open_urls
    &&& a.environment == b.environment
    &&& a.allow_launch_services == b.allow_launch_services
    &&& a.allow_gpu == b.allow_gpu
    &&& a.allow_parent_of_protected == b.allow_parent_of_protected
    &&& a.packs == b.packs
    &&& a.filesystem.deny == b.filesystem.deny
}

/// The profile with the patch merged in.
pub open spec fn merged(after: Profile, before: Profile, patch: Profile) -> bool {
    let f = after.filesystem;
    let o = before.filesystem;
    let p = patch.filesystem;
    &&& same_besides_patch(after, before)
    &&& views(f.allow@) == merged_list(views(o.allow@), views(p.allow@))
    &&& views(f.read@) == merged_list(views(o.read@), views(p.read@))
    &&& views(f.write@) == merged_list(views(o.write@), views(p.write@))
    &&& views(f.allow_file@) == merged_list(views(o.allow_file@), views(p.allow_file@))
    &&& views(f.read_file@) == merged_list(views(o.read_file@), views(p.read_file@))
    &&& views(f.write_file@) == merged_list(views(o.write_file@), views(p.write_file@))
    &&& views(f.bypass_protection@) == merged_list(
        views(o.bypass_protection@),
        views(p.bypass_protection@),
    )
    &&& views(f.suppress_save_prompt@) == merged_list(
        views(o.suppress_save_prompt@),
        views(p.suppress_save_prompt@),
    )
    &&& views(after.unsafe_macos_seatbelt_rules@) == merged_list(
        views(before.unsafe_macos_seatbelt_rules@),
        views(patch.unsafe_macos_seatbelt_rules@),
    )
}

/// Adds to a profile what a patch holds and it lacks.
pub fn merge_profile_patch(profile: &mut Profile, patch: &Profile)
    ensures
        merged(*final(profile), *old(profile), *patch),
{
    let f = &patch.filesystem;
    profile.filesystem.allow = dedup_append(&profile.filesystem.allow, &f.allow);
    profile.filesystem.read = dedup_append(&profile.filesystem.read, &f.read);
    profile.filesystem.write = dedup_append(&profile.filesystem.write, &f.write);
    profile.filesystem.allow_file = dedup_append(&profile.filesystem.allow_file, &f.allow_file);
    profile.filesystem.read_file = dedup_append(&profile.filesystem.read_file, &f.read_file);
    profile.filesystem.write_file = dedup_append(&profile.filesystem.write_file, &f.write_file);
    profile.filesystem.bypass_protection = dedup_append(
        &profile.filesystem.bypass_protection,
        &f.bypass_protection,
    );
    profile.filesystem.suppress_save_prompt = dedup_append(
        &profile.filesystem.suppress_save_prompt,
        &f.suppress_save_prompt,
    );
    profile.unsafe_macos_seatbelt_rules = dedup_append(
        &profile.unsafe_macos_seatbelt_rules,
        &patch.unsafe_macos_seatbelt_rules,
    );
}

proof fn lemma_append_new(a: Seq<Seq<char>>, b: Seq<Seq<char>>, x: Seq<char>)
    ensures
        append_new(a, b).contains(x) <==> a.contains(x) || b.contains(x),
    decreases b.len(),
{
    if b.len() > 0 {
        let front = b.drop_last();
        lemma_append_new(a, front, x);
        let r = append_new(a, front);
        assert(b.contains(x) <==> front.contains(x) || x == b.last()) by {
            if front.contains(x) {
                let i = choose|i: int| 0 <= i < front.len() && front[i] == x;
                assert(b[i] == x);
            }
            if b.contains(x) && x != b.last() {
                let i = choose|i: int| 0 <= i < b.len() && b[i] == x;
                assert(front[i] == x);
            }
            if x == b.last() {
                assert(b[b.len() - 1] == x);
            }
        }
        if !r.contains(b.last()) {
            let s = r.push(b.last());
            assert(s.contains(x) <==> r.contains(x) || x == b.last()) by {
                if r.contains(x) {
                    let i = choose|i: int| 0 <= i < r.len() && r[i] == x;
                    assert(s[i] == x);
                }
                if x == b.last() {
                    assert(s[r.len() as int] == x);
                }
            }
        }
    }
}

/// Merging loses nothing of either list and adds nothing else.
pub proof fn law_merging_keeps_both(a: Seq<Seq<char>>, b: Seq<Seq<char>>, x: Seq<char>)
    ensures
        merged_list(a, b).contains(x) <==> a.contains(x) || b.contains(x),
{
    lemma_append_new(Seq::empty(), a, x);
    lemma_append_new(append_new(Seq::empty(), a), b, x);
}

proof fn lemma_append_known(a: Seq<Seq<char>>, b: Seq<Seq<char>>)
    requires
        forall|i: int| 0 <= i < b.len() ==> a.contains(#[trigger] b[i]),
    ensures
        append_new(a, b) == a,
    decreases b.len(),
{
    if b.len() > 0 {
        assert forall|i: int| 0 <= i < b.drop_last().len() implies a.contains(
            #[trigger] b.drop_last()[i],
        ) by {
            assert(b.drop_last()[i] == b[i]);
        }
        lemma_append_known(a, b.drop_last());
        assert(a.contains(b[b.len() - 1]));
    }
}

/// Merging the same patch again changes nothing.
pub proof fn law_merging_twice_is_merging_once(a: Seq<Seq<char>>, b: Seq<Seq<char>>)
    ensures
        merged_list(merged_list(a, b), b) == merged_list(a, b),
{
    let m = merged_list(a, b);
    lemma_no_duplicates(append_new(Seq::empty(), a), b);
    lemma_no_duplicates(Seq::empty(), a);
    lemma_append_self(m);
    assert forall|i: int| 0 <= i < b.len() implies m.contains(#[trigger] b[i]) by {
        lemma_append_new(append_new(Seq::empty(), a), b, b[i]);
        assert(b.contains(b[i]));
    }
    lemma_append_known(m, b);
}

proof fn lemma_no_duplicates(a: Seq<Seq<char>>, b: Seq<Seq<char>>)
    ensures
        a.no_duplicates() ==> append_new(a, b).no_duplicates(),
    decreases b.len(),
{
    if b.len() > 0 {
        lemma_no_duplicates(a, b.drop_last());
        let r = append_new(a, b.drop_last());
        if a.no_duplicates() && !r.contains(b.last()) {
            let s = r.push(b.last());
            assert forall|i: int, j: int| 0 <= i < s.len() && 0 <= j < s.len() && i != j implies s[i]
                != s[j] by {
                if i == r.len() {
                    assert(r.contains(r[j]));
                } else if j == r.len() {
                    assert(r.contains(r[i]));
                }
            }
        }
    }
}

proof fn lemma_append_self(a: Seq<Seq<char>>)
    requires
        a.no_duplicates(),
    ensures
        append_new(Seq::empty(), a) == a,
    decreases a.len(),
{
    if a.len() > 0 {
        let front = a.drop_last();
        assert(front.no_duplicates()) by {
            assert forall|i: int, j: int|
                0 <= i < front.len() && 0 <= j < front.len() && i != j implies front[i]
                != front[j] by {
                assert(a[i] != a[j]);
            }
        }
        lemma_append_self(front);
        if front.contains(a.last()) {
            let i = choose|i: int| 0 <= i < front.len() && front[i] == a.last();
            assert(a[i] == a[a.len() - 1]);
        }
        assert(front.push(a.last()) =~= a);
    } else {
        assert(a =~= Seq::empty());
    }
}

} // verus!
