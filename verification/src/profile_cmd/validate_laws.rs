//! What checking a profile finds.

use crate::assoc::{has_key, lookup};
use crate::error::ErrorView;
use crate::json::JsonView;
use crate::policy::{required_groups, unknown_groups, Group};
use crate::profile::Profile;
use crate::profile_cmd::validate::{
    blank_paths, error_label, profile_errors, profile_warnings, validate_target, validation_json,
    verdict_of, Loaded, Verdict,
};
use crate::report::Style;
use crate::text::laws::law_parts_of_texts;
use crate::text::{decimal, is_blank, lemma_in_either, lemma_in_filtered, lemma_in_views, views, wrapped};
use vstd::prelude::*;

verus! {

/// A list names a group that fits.
pub open spec fn names(v: Seq<String>, name: Seq<char>) -> bool {
    exists|i: int| 0 <= i < v.len() && (#[trigger] v[i])@ == name
}

proof fn lemma_wrapped(before: Seq<char>, texts: Seq<Seq<char>>, after: Seq<char>, x: Seq<char>)
    ensures
        wrapped(before, texts, after).contains(x) <==> exists|t: Seq<char>| #[trigger]
            texts.contains(t) && x == before + t + after,
{
    let w = wrapped(before, texts, after);
    if w.contains(x) {
        let i = choose|i: int| 0 <= i < w.len() && w[i] == x;
        assert(texts.contains(texts[i]));
    }
    if exists|t: Seq<char>| #[trigger] texts.contains(t) && x == before + t + after {
        let t = choose|t: Seq<char>| #[trigger] texts.contains(t) && x == before + t + after;
        let i = choose|i: int| 0 <= i < texts.len() && texts[i] == t;
        assert(w[i] == x);
    }
}

/// The errors of a profile that was loaded are the groups that it names and that there are not, and
/// the required groups that it leaves out.
pub proof fn law_errors_of_profiles(p: Profile, groups: Seq<(String, Group)>, x: Seq<char>)
    ensures
        profile_errors(Ok(p), groups).contains(x) <==> {
            ||| exists|g: Seq<char>| #[trigger]
                names(p.groups.included@, g) && !has_key(groups, g) && x == "Group '"@ + g
                    + "' not found in policy.json"@
            ||| exists|g: Seq<char>| #[trigger]
                names(p.groups.excluded@, g) && has_key(groups, g) && (lookup(groups, g)->0).required
                    && x == "Cannot exclude required group '"@ + g + "'"@
        },
{
    let unknown = unknown_groups(views(p.groups.included@), groups);
    let required = required_groups(views(p.groups.excluded@), groups);
    let a = wrapped("Group '"@, unknown, "' not found in policy.json"@);
    let b = wrapped("Cannot exclude required group '"@, required, "'"@);
    lemma_in_either(a, b, x);
    lemma_wrapped("Group '"@, unknown, "' not found in policy.json"@, x);
    lemma_wrapped("Cannot exclude required group '"@, required, "'"@, x);
    assert forall|g: Seq<char>| #[trigger] unknown.contains(g) <==> names(p.groups.included@, g)
        && !has_key(groups, g) by {
        lemma_in_filtered(views(p.groups.included@), |n: Seq<char>| !has_key(groups, n), g);
        lemma_in_views(p.groups.included@, g);
    }
    assert forall|g: Seq<char>| #[trigger] names(p.groups.included@, g) && !has_key(groups, g)
        implies unknown.contains(g) by {}
    assert forall|g: Seq<char>| #[trigger] required.contains(g) <==> names(p.groups.excluded@, g)
        && has_key(groups, g) && (lookup(groups, g)->0).required by {
        lemma_in_filtered(
            views(p.groups.excluded@),
            |n: Seq<char>| has_key(groups, n) && (lookup(groups, n)->0).required,
            g,
        );
        lemma_in_views(p.groups.excluded@, g);
    }
    assert forall|g: Seq<char>| #[trigger]
        names(p.groups.excluded@, g) && has_key(groups, g) && (lookup(groups, g)->0).required
        implies required.contains(g) by {}
}

/// A profile has no error exactly where it was loaded, all groups that it names are there, and it
/// leaves out no required one.
pub proof fn law_profiles_without_errors(loaded: Loaded, groups: Seq<(String, Group)>)
    ensures
        profile_errors(loaded, groups).len() == 0 <==> {
            &&& loaded is Ok
            &&& forall|i: int|
                0 <= i < (loaded->Ok_0).groups.included@.len() ==> has_key(
                    groups,
                    (#[trigger] (loaded->Ok_0).groups.included@[i])@,
                )
            &&& forall|i: int|
                0 <= i < (loaded->Ok_0).groups.excluded@.len() ==> !(has_key(
                    groups,
                    (#[trigger] (loaded->Ok_0).groups.excluded@[i])@,
                ) && (lookup(groups, (loaded->Ok_0).groups.excluded@[i]@)->0).required)
            },
        loaded is Err ==> profile_errors(loaded, groups).len() == 1,
{
    if let Ok(p) = loaded {
        let inc = p.groups.included@;
        let exc = p.groups.excluded@;
        let bad = |n: Seq<char>| !has_key(groups, n);
        let held = |n: Seq<char>| has_key(groups, n) && (lookup(groups, n)->0).required;
        let u = unknown_groups(views(inc), groups);
        let r = required_groups(views(exc), groups);
        if u.len() > 0 {
            assert(u.contains(u[0]));
            lemma_in_filtered(views(inc), bad, u[0]);
            lemma_in_views(inc, u[0]);
        }
        if r.len() > 0 {
            assert(r.contains(r[0]));
            lemma_in_filtered(views(exc), held, r[0]);
            lemma_in_views(exc, r[0]);
        }
        assert forall|i: int| 0 <= i < inc.len() && u.len() == 0 implies has_key(
            groups,
            (#[trigger] inc[i])@,
        ) by {
            lemma_in_filtered(views(inc), bad, inc[i]@);
            assert(views(inc)[i] == inc[i]@);
            assert(views(inc).contains(inc[i]@));
        }
        assert forall|i: int| 0 <= i < exc.len() && r.len() == 0 implies !(has_key(
            groups,
            (#[trigger] exc[i])@,
        ) && (lookup(groups, exc[i]@)->0).required) by {
            lemma_in_filtered(views(exc), held, exc[i]@);
            assert(views(exc)[i] == exc[i]@);
            assert(views(exc).contains(exc[i]@));
        }
    }
}

/// A check fails where there are errors; without errors it fails under the strict rules where there
/// are deprecated keys, and passes otherwise.
pub proof fn law_verdicts(errors: nat, strict: bool, deprecated: nat)
    ensures
        verdict_of(errors, strict, deprecated) == Verdict::Failed <==> errors > 0,
        verdict_of(errors, strict, deprecated) == Verdict::StrictFailure <==> errors == 0 && strict
            && deprecated > 0,
        verdict_of(errors, strict, deprecated) == Verdict::Passed <==> errors == 0 && (!strict
            || deprecated == 0),
{
}

/// The file to check: the input where it exists or can only be a path; else the user's profile of
/// that name, else that of an installed pack, else the file of that name with `.json` behind it,
/// each where there is one; and else the input.
pub proof fn law_checked_files(
    input: Seq<char>,
    present: bool,
    user: Option<Seq<char>>,
    pack: Option<Seq<char>>,
    json: Option<Seq<char>>,
)
    ensures
        ({
            let t = validate_target(input, present, user, pack, json);
            let is_path = input.contains('/') || (exists|a: Seq<char>| input == #[trigger] (a
                + ".json"@)) || (exists|a: Seq<char>| input == #[trigger] (a + ".jsonc"@));
            &&& present || is_path ==> t == input
            &&& !present && !is_path && user is Some ==> t == user->0
            &&& !present && !is_path && user is None && pack is Some ==> t == pack->0
            &&& !present && !is_path && user is None && pack is None && json is Some ==> t
                == json->0
            &&& user is None && pack is None && json is None ==> t == input
        }),
{
    law_parts_of_texts(input, ".json"@);
    law_parts_of_texts(input, ".jsonc"@);
}

/// For programs a check says which file it was on, whether it is valid, and what was found.
pub proof fn law_checks_for_programs(
    file: Seq<char>,
    errors: Seq<Seq<char>>,
    warnings: Seq<Seq<char>>,
    deprecated: nat,
)
    ensures
        ({
            let m = validation_json(file, errors, warnings, deprecated)->Object_0;
            &&& m.len() == 5
            &&& m[0] == ("file"@, JsonView::Text(file))
            &&& m[1].0 == "valid"@ && m[1].1 is Bool && (m[1].1->Bool_0 <==> errors.len() == 0)
            &&& m[2].0 == "errors"@ && m[3].0 == "warnings"@
            &&& m[4] == ("deprecated_keys"@, JsonView::Number(deprecated))
        }),
{
}

/// A warning on a blank path is given exactly where a list has one.
pub proof fn law_blank_paths_are_warned_of(paths: Seq<Seq<char>>, label: Seq<char>)
    ensures
        blank_paths(paths, label).len() > 0 <==> exists|i: int|
            0 <= i < paths.len() && is_blank(#[trigger] paths[i]),
        forall|k: int|
            0 <= k < blank_paths(paths, label).len() ==> #[trigger] blank_paths(paths, label)[k]
                == "Empty path in "@ + label,
{
    let keep = |p: Seq<char>| is_blank(p);
    let kept = paths.filter(keep);
    if kept.len() > 0 {
        assert(kept.contains(kept[0]));
        lemma_in_filtered(paths, keep, kept[0]);
        let i = choose|i: int| 0 <= i < paths.len() && paths[i] == kept[0];
        assert(is_blank(paths[i]));
    }
    if exists|i: int| 0 <= i < paths.len() && is_blank(#[trigger] paths[i]) {
        let i = choose|i: int| 0 <= i < paths.len() && is_blank(#[trigger] paths[i]);
        assert(paths.contains(paths[i]));
        lemma_in_filtered(paths, keep, paths[i]);
    }
}

/// A failure to load is labelled by its kind.
pub proof fn law_failures_have_labels(e: ErrorView)
    ensures
        e is ProfileRead ==> error_label(e) == "File read error"@,
        e is ProfileInheritance ==> error_label(e) == "Inheritance error"@,
        e is ProfileNotFound ==> error_label(e) == "Profile not found"@,
        e is ProfileParse ==> error_label(e) == "JSON syntax error"@ || error_label(e)
            == "Profile error"@,
{
}

/// The result is valid exactly where there is no error; warnings are counted where there are any.
pub proof fn law_results(errors: nat, warnings: nat)
    ensures
        ({
            let l = crate::profile_cmd::validate::result_line(errors, warnings);
            &&& errors == 0 <==> l[1] == (Style::GreenBold, "valid"@)
            &&& errors > 0 <==> l[1] == (Style::RedBold, "invalid"@)
            &&& errors == 1 ==> l[2].1 == " ("@ + decimal(1) + " error"@ + ""@ + ")"@
            &&& errors > 1 ==> l[2].1 == " ("@ + decimal(errors) + " error"@ + "s"@ + ")"@
            &&& errors == 0 && warnings == 0 ==> l[2].1 == ""@
            &&& errors == 0 && warnings == 1 ==> l[2].1 == " ("@ + decimal(1) + " warning"@ + ""@
                + ")"@
            &&& errors == 0 && warnings > 1 ==> l[2].1 == " ("@ + decimal(warnings) + " warning"@
                + "s"@ + ")"@
        }),
{
}

/// Every error is shown in red and every warning in yellow, and the result is the last line.
pub proof fn law_findings_are_shown(file: Seq<char>, loaded: Loaded, groups: Seq<(String, Group)>)
    ensures
        ({
            let l = crate::profile_cmd::validate::validation_lines(file, loaded, groups);
            let e = profile_errors(loaded, groups);
            let w = profile_warnings(loaded, groups);
            &&& forall|i: int|
                0 <= i < e.len() ==> crate::output::laws::told(l, Style::Red, #[trigger] e[i])
            &&& forall|i: int|
                0 <= i < w.len() ==> crate::output::laws::told(l, Style::Yellow, #[trigger] w[i])
            &&& l.last() == crate::profile_cmd::validate::result_line(e.len(), w.len())
        }),
{
    let l = crate::profile_cmd::validate::validation_lines(file, loaded, groups);
    let e = profile_errors(loaded, groups);
    let w = profile_warnings(loaded, groups);
    let n = crate::profile_cmd::validate::ok_lines(loaded, groups).len();
    assert forall|i: int| 0 <= i < w.len() implies crate::output::laws::told(
        l,
        Style::Yellow,
        #[trigger] w[i],
    ) by {
        assert(l[2 + n + i][3] == (Style::Yellow, w[i]));
        assert(crate::output::laws::says(l[2 + n + i], Style::Yellow, w[i]));
    }
    assert forall|i: int| 0 <= i < e.len() implies crate::output::laws::told(
        l,
        Style::Red,
        #[trigger] e[i],
    ) by {
        assert(l[2 + n + w.len() + i][3] == (Style::Red, e[i]));
        assert(crate::output::laws::says(l[2 + n + w.len() + i], Style::Red, e[i]));
    }
}

} // verus!
