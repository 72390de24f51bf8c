//! Checking a profile.

use crate::error::{ErrorView, NonoError};
use crate::json::{
    field, json_object, json_text, json_texts, no_members, put_field, text_array, Json, JsonView,
};
use crate::policy::{list_required_groups, list_unknown_groups, required_groups, unknown_groups, Group};
use crate::profile::{is_valid_profile_name, valid_profile_name, Profile};
use crate::report::{blank_line, LineView, Report, Style};
use crate::text::{
    chars_of, concat2, concat3, concat5, contains_char, copy_str, decimal, has_prefix, has_sub, has_suffix,
    is_blank, lemma_filter_step, opt_view, push_copy, push_wrapped, str_contains, str_ends_with,
    str_is_blank, str_starts_with, usize_to_string, views, wrapped,
};
use vstd::prelude::*;

verus! {

/// The kind of a failure to load a profile, in words.
pub open spec fn error_label(e: ErrorView) -> Seq<char> {
    match e {
        ErrorView::ProfileParse(m) => if has_prefix(m, "expected"@) || has_sub(m, "line "@)
            || has_sub(m, "column "@) || has_sub(m, "EOF"@) {
            "JSON syntax error"@
        } else {
            "Profile error"@
        },
        ErrorView::ProfileRead { .. } => "File read error"@,
        ErrorView::ProfileInheritance(_) => "Inheritance error"@,
        ErrorView::ProfileNotFound(_) => "Profile not found"@,
        _ => "Error"@,
    }
}

pub fn classify_profile_error(e: &NonoError) -> (r: &'static str)
    ensures
        r@ == error_label(e@),
{
    match e {
        NonoError::ProfileParse(m) => if str_starts_with(m.as_str(), "expected") || str_contains(
            m.as_str(),
            "line ",
        ) || str_contains(m.as_str(), "column ") || str_contains(m.as_str(), "EOF") {
            "JSON syntax error"
        } else {
            "Profile error"
        },
        NonoError::ProfileRead { path: _, cause: _ } => "File read error",
        NonoError::ProfileInheritance(_) => "Inheritance error",
        NonoError::ProfileNotFound(_) => "Profile not found",
        _ => "Error",
    }
}

/// A name that can only be meant as a path.
pub open spec fn looks_like_path(s: Seq<char>) -> bool {
    s.contains('/') || has_suffix(s, ".json"@) || has_suffix(s, ".jsonc"@)
}

/// Where the profile to check is: the input itself where it exists or looks like a path, then
/// the user's profile of that name, then the one of an installed pack, then the file of that name
/// with `.json` behind it.
pub open spec fn validate_target(
    input: Seq<char>,
    present: bool,
    user: Option<Seq<char>>,
    pack: Option<Seq<char>>,
    json: Option<Seq<char>>,
) -> Seq<char> {
    if present || looks_like_path(input) {
        input
    } else {
        match (user, pack, json) {
            (Some(p), _, _) => p,
            (None, Some(p), _) => p,
            (None, None, Some(p)) => p,
            (None, None, None) => input,
        }
    }
}

/// The file that a bare name stands for with `.json` behind it.
pub fn json_form(input: &str) -> (r: String)
    ensures
        r@ == input@ + ".json"@,
{
    concat2(input, ".json")
}

/// Chooses the file to check. `user` is the user's profile of that name where there is one, `pack`
/// that of an installed pack, and `json` the [`json_form`] of the name where that file exists.
pub fn resolve_validate_target(
    input: &str,
    present: bool,
    user: &Option<String>,
    pack: &Option<String>,
    json: &Option<String>,
) -> (r: String)
    ensures
        r@ == validate_target(input@, present, opt_view(*user), opt_view(*pack), opt_view(*json)),
{
    let v = chars_of(input);
    if present || contains_char(&v, '/') || str_ends_with(input, ".json") || str_ends_with(
        input,
        ".jsonc",
    ) {
        return copy_str(input);
    }
    match (user, pack, json) {
        (Some(p), _, _) => copy_str(p.as_str()),
        (None, Some(p), _) => copy_str(p.as_str()),
        (None, None, Some(p)) => copy_str(p.as_str()),
        (None, None, None) => copy_str(input),
    }
}

/// Checks the name of a draft; `draft_path` is where drafts of that name are.
pub fn resolve_validate_draft_target(name: &str, draft_path: Result<String, NonoError>) -> (r: Result<
    String,
    NonoError,
>)
    ensures
        !valid_profile_name(name@) ==> r is Err && (r->Err_0)@ == ErrorView::ProfileParse(
            "invalid draft profile name '"@ + name@ + "'"@,
        ),
        valid_profile_name(name@) ==> r == draft_path,
{
    if !is_valid_profile_name(name) {
        return Err(
            NonoError::ProfileParse(concat3("invalid draft profile name '", name, "'")),
        );
    }
    draft_path
}

// ---------------------------------------------------------------------------
// Findings
// ---------------------------------------------------------------------------

/// One complaint for each blank path of a list.
pub open spec fn blank_paths(paths: Seq<Seq<char>>, label: Seq<char>) -> Seq<Seq<char>> {
    paths.filter(|p: Seq<char>| is_blank(p)).map_values(|p: Seq<char>| "Empty path in "@ + label)
}

fn push_blank_paths(v: &mut Vec<String>, paths: &Vec<String>, label: &str)
    ensures
        views(final(v)@) == views(old(v)@) + blank_paths(views(paths@), label@),
{
    let ghost keep = |p: Seq<char>| is_blank(p);
    let ghost shape = |p: Seq<char>| "Empty path in "@ + label@;
    let ghost start = views(v@);
    let mut i: usize = 0;
    assert(start + views(paths@).take(0).filter(keep).map_values(shape) =~= start);
    while i < paths.len()
        invariant
            i <= paths@.len(),
            keep == (|p: Seq<char>| is_blank(p)),
            shape == (|p: Seq<char>| "Empty path in "@ + label@),
            views(v@) == start + views(paths@).take(i as int).filter(keep).map_values(shape),
        decreases paths@.len() - i,
    {
        let ghost done = views(paths@).take(i as int).filter(keep);
        proof {
            lemma_filter_step(views(paths@), i as int, keep);
            assert(views(paths@)[i as int] == paths@[i as int]@);
            assert(done.push(paths@[i as int]@).map_values(shape) =~= done.map_values(shape).push(
                "Empty path in "@ + label@,
            ));
            assert(start + done.map_values(shape).push("Empty path in "@ + label@) =~= (start
                + done.map_values(shape)).push("Empty path in "@ + label@));
        }
        if str_is_blank(paths[i].as_str()) {
            let s = concat2("Empty path in ", label);
            push_copy(v, s.as_str());
        }
        i += 1;
    }
    assert(views(paths@).take(i as int) =~= views(paths@));
}

/// What came of loading a profile: the profile, or the failure with the text that reports it.
pub type Loaded = Result<Profile, (NonoError, String)>;

/// What is wrong with a profile.
pub open spec fn profile_errors(loaded: Loaded, groups: Seq<(String, Group)>) -> Seq<Seq<char>> {
    match loaded {
        Err(failure) => seq![error_label(failure.0@) + ": "@ + failure.1@],
        Ok(p) => wrapped(
            "Group '"@,
            unknown_groups(views(p.groups.included@), groups),
            "' not found in policy.json"@,
        ) + wrapped(
            "Cannot exclude required group '"@,
            required_groups(views(p.groups.excluded@), groups),
            "'"@,
        ),
    }
}

/// What is doubtful in a profile.
pub open spec fn profile_warnings(loaded: Loaded, groups: Seq<(String, Group)>) -> Seq<Seq<char>> {
    match loaded {
        Err(_) => Seq::empty(),
        Ok(p) => wrapped(
            "Excluded group '"@,
            unknown_groups(views(p.groups.excluded@), groups),
            "' not found in policy.json"@,
        ) + blank_paths(views(p.filesystem.allow@), "filesystem.allow"@) + blank_paths(
            views(p.filesystem.read@),
            "filesystem.read"@,
        ) + blank_paths(views(p.filesystem.write@), "filesystem.write"@) + blank_paths(
            views(p.filesystem.suppress_save_prompt@),
            "filesystem.suppress_save_prompt"@,
        ),
    }
}

/// What checking a profile found.
#[derive(Debug)]
pub struct Findings {
    pub errors: Vec<String>,
    pub warnings: Vec<String>,
}

/// Checks a profile against the groups there are.
pub fn check_profile(loaded: &Loaded, groups: &Vec<(String, Group)>) -> (r: Findings)
    ensures
        views(r.errors@) == profile_errors(*loaded, groups@),
        views(r.warnings@) == profile_warnings(*loaded, groups@),
{
    let mut errors: Vec<String> = Vec::new();
    let mut warnings: Vec<String> = Vec::new();
    assert(views(errors@) =~= Seq::<Seq<char>>::empty());
    assert(views(warnings@) =~= Seq::<Seq<char>>::empty());
    match loaded {
        Err(failure) => {
            let label = classify_profile_error(&failure.0);
            let s = concat3(label, ": ", failure.1.as_str());
            push_copy(&mut errors, s.as_str());
            assert(views(errors@) =~= profile_errors(*loaded, groups@));
        },
        Ok(p) => {
            push_wrapped(
                &mut errors,
                "Group '",
                &list_unknown_groups(&p.groups.included, groups),
                "' not found in policy.json",
            );
            push_wrapped(
                &mut errors,
                "Cannot exclude required group '",
                &list_required_groups(&p.groups.excluded, groups),
                "'",
            );
            push_wrapped(
                &mut warnings,
                "Excluded group '",
                &list_unknown_groups(&p.groups.excluded, groups),
                "' not found in policy.json",
            );
            push_blank_paths(&mut warnings, &p.filesystem.allow, "filesystem.allow");
            push_blank_paths(&mut warnings, &p.filesystem.read, "filesystem.read");
            push_blank_paths(&mut warnings, &p.filesystem.write, "filesystem.write");
            push_blank_paths(
                &mut warnings,
                &p.filesystem.suppress_save_prompt,
                "filesystem.suppress_save_prompt",
            );
            assert(views(errors@) =~= profile_errors(*loaded, groups@));
            assert(views(warnings@) =~= profile_warnings(*loaded, groups@));
        },
    }
    Findings { errors, warnings }
}

// ---------------------------------------------------------------------------
// Verdict and report
// ---------------------------------------------------------------------------

/// How a check ends.
#[derive(Clone, Copy, Debug, PartialEq, Eq, Structural)]
pub enum Verdict {
    Passed,
    /// Valid, but with deprecated keys under the strict rules: the exit status is 2.
    StrictFailure,
    /// Invalid.
    Failed,
}

pub open spec fn verdict_of(n_errors: nat, strict: bool, deprecated: nat) -> Verdict {
    if n_errors > 0 {
        Verdict::Failed
    } else if strict && deprecated > 0 {
        Verdict::StrictFailure
    } else {
        Verdict::Passed
    }
}

pub fn verdict(findings: &Findings, strict: bool, deprecated: usize) -> (r: Verdict)
    ensures
        r == verdict_of(findings.errors@.len(), strict, deprecated as nat),
{
    if findings.errors.len() > 0 {
        Verdict::Failed
    } else if strict && deprecated > 0 {
        Verdict::StrictFailure
    } else {
        Verdict::Passed
    }
}

/// The failure of a check, where it fails.
pub fn verdict_failure(v: Verdict) -> (r: Result<(), NonoError>)
    ensures
        r is Err <==> v == Verdict::Failed,
        r is Err ==> (r->Err_0)@ == ErrorView::ProfileParse("validation failed"@),
{
    match v {
        Verdict::Failed => Err(NonoError::ProfileParse(copy_str("validation failed"))),
        _ => Ok(()),
    }
}

/// The line on deprecated keys, where there are any.
pub fn emit_deprecation_summary(count: usize) -> (r: Option<String>)
    ensures
        count == 0 <==> r is None,
        count > 0 ==> (r->0)@ == "found "@ + decimal(count as nat)
            + " deprecated keys; run 'nono profile guide' for migration mapping"@,
{
    if count == 0 {
        return None;
    }
    let n = usize_to_string(count);
    Some(
        concat3(
            "found ",
            n.as_str(),
            " deprecated keys; run 'nono profile guide' for migration mapping",
        ),
    )
}

pub open spec fn validation_json(
    file: Seq<char>,
    errors: Seq<Seq<char>>,
    warnings: Seq<Seq<char>>,
    deprecated: nat,
) -> JsonView {
    JsonView::Object(
        Seq::<(Seq<char>, JsonView)>::empty() + field("file"@, JsonView::Text(file)) + field(
            "valid"@,
            JsonView::Bool(errors.len() == 0),
        ) + field("errors"@, text_array(errors)) + field("warnings"@, text_array(warnings))
            + field("deprecated_keys"@, JsonView::Number(deprecated)),
    )
}

/// The findings for programs.
pub fn validation_to_json(file: &str, findings: &Findings, deprecated: usize) -> (r: Json)
    ensures
        r@ == validation_json(
            file@,
            views(findings.errors@),
            views(findings.warnings@),
            deprecated as nat,
        ),
{
    let mut o = no_members();
    put_field(&mut o, "file", json_text(file));
    put_field(&mut o, "valid", Json::Bool(findings.errors.len() == 0));
    put_field(&mut o, "errors", json_texts(&findings.errors));
    put_field(&mut o, "warnings", json_texts(&findings.warnings));
    put_field(&mut o, "deprecated_keys", Json::Number(deprecated as u64));
    json_object(o)
}

/// An "s" unless there is one.
pub open spec fn plural(n: nat) -> Seq<char> {
    if n == 1 {
        ""@
    } else {
        "s"@
    }
}

fn plural_str(n: usize) -> (r: &'static str)
    ensures
        r@ == plural(n as nat),
{
    if n == 1 {
        ""
    } else {
        "s"
    }
}

/// The lines on what is in order.
pub open spec fn ok_lines(loaded: Loaded, groups: Seq<(String, Group)>) -> Seq<LineView> {
    match loaded {
        Err(_) => Seq::empty(),
        Ok(p) => {
            let n = p.groups.included@.len();
            seq![
                seq![
                    (Style::Plain, "  "@),
                    (Style::Green, "[ok]"@),
                    (Style::Plain, "  JSON syntax valid"@),
                ],
            ] + if n > 0 && unknown_groups(views(p.groups.included@), groups).len() == 0 {
                seq![
                    seq![
                        (Style::Plain, "  "@),
                        (Style::Green, "[ok]"@),
                        (Style::Plain, "  All "@),
                        (Style::Plain, decimal(n)),
                        (Style::Plain, " group references valid"@),
                    ],
                ]
            } else {
                Seq::<LineView>::empty()
            }
        },
    }
}

fn add_ok_lines(out: &mut Report, loaded: &Loaded, groups: &Vec<(String, Group)>)
    ensures
        final(out)@ == old(out)@ + ok_lines(*loaded, groups@),
{
    let ghost before = out@;
    if let Ok(p) = loaded {
        out.line3(Style::Plain, "  ", Style::Green, "[ok]", Style::Plain, "  JSON syntax valid");
        let n = p.groups.included.len();
        let unknown = list_unknown_groups(&p.groups.included, groups);
        assert(views(unknown@).len() == unknown@.len());
        if n > 0 && unknown.len() == 0 {
            let count = usize_to_string(n);
            out.line5(
                Style::Plain,
                "  ",
                Style::Green,
                "[ok]",
                Style::Plain,
                "  All ",
                Style::Plain,
                count.as_str(),
                Style::Plain,
                " group references valid",
            );
        }
    }
    assert(out@ =~= before + ok_lines(*loaded, groups@));
}

/// Lines with a mark and a text of one style.
pub open spec fn finding_lines(
    style: Style,
    mark: Seq<char>,
    gap: Seq<char>,
    texts: Seq<Seq<char>>,
) -> Seq<LineView> {
    texts.map_values(
        |t: Seq<char>|
            seq![(Style::Plain, "  "@), (style, mark), (Style::Plain, gap), (style, t)],
    )
}

fn add_finding_lines(out: &mut Report, style: Style, mark: &str, gap: &str, texts: &Vec<String>)
    ensures
        final(out)@ == old(out)@ + finding_lines(style, mark@, gap@, views(texts@)),
{
    let ghost all = finding_lines(style, mark@, gap@, views(texts@));
    let ghost start = out@;
    let mut i: usize = 0;
    assert(start + all.take(0) =~= start);
    while i < texts.len()
        invariant
            i <= texts@.len(),
            all == finding_lines(style, mark@, gap@, views(texts@)),
            out@ == start + all.take(i as int),
        decreases texts@.len() - i,
    {
        out.line4(Style::Plain, "  ", style, mark, Style::Plain, gap, style, texts[i].as_str());
        i += 1;
        assert(all.take(i as int) =~= all.take(i - 1).push(all[i - 1]));
        assert(out@ =~= start + all.take(i as int));
    }
    assert(all.take(i as int) =~= all);
}

pub open spec fn warning_suffix(n: nat) -> Seq<char> {
    if n == 0 {
        ""@
    } else {
        " ("@ + decimal(n) + " warning"@ + plural(n) + ")"@
    }
}

fn warning_suffix_str(n: usize) -> (r: String)
    ensures
        r@ == warning_suffix(n as nat),
{
    if n == 0 {
        return copy_str("");
    }
    let count = usize_to_string(n);
    concat5(" (", count.as_str(), " warning", plural_str(n), ")")
}

pub open spec fn result_line(n_errors: nat, n_warnings: nat) -> LineView {
    if n_errors == 0 {
        seq![
            (Style::Plain, "  Result: "@),
            (Style::GreenBold, "valid"@),
            (Style::Yellow, warning_suffix(n_warnings)),
        ]
    } else {
        seq![
            (Style::Plain, "  Result: "@),
            (Style::RedBold, "invalid"@),
            (Style::Plain, " ("@ + decimal(n_errors) + " error"@ + plural(n_errors) + ")"@),
        ]
    }
}

pub open spec fn validation_lines(
    file: Seq<char>,
    loaded: Loaded,
    groups: Seq<(String, Group)>,
) -> Seq<LineView> {
    let errors = profile_errors(loaded, groups);
    let warnings = profile_warnings(loaded, groups);
    seq![
        seq![
            (Style::Brand, "nono profile"@),
            (Style::Plain, ": validating "@),
            (Style::Text, file),
        ],
        blank_line(),
    ] + ok_lines(loaded, groups) + finding_lines(Style::Yellow, "[warn]"@, " "@, warnings)
        + finding_lines(Style::Red, "[err]"@, "  "@, errors) + seq![
        blank_line(),
        result_line(errors.len(), warnings.len()),
    ]
}

/// Checks a profile and reports the findings to people.
pub fn cmd_validate(file: &str, loaded: &Loaded, groups: &Vec<(String, Group)>) -> (out: Report)
    ensures
        out@ == validation_lines(file@, *loaded, groups@),
{
    let findings = check_profile(loaded, groups);
    let mut out = Report::new();
    out.line3(Style::Brand, "nono profile", Style::Plain, ": validating ", Style::Text, file);
    out.blank();
    add_ok_lines(&mut out, loaded, groups);
    add_finding_lines(&mut out, Style::Yellow, "[warn]", " ", &findings.warnings);
    add_finding_lines(&mut out, Style::Red, "[err]", "  ", &findings.errors);
    out.blank();
    proof {
        assert(views(findings.errors@).len() == findings.errors@.len());
        assert(views(findings.warnings@).len() == findings.warnings@.len());
    }
    let n = findings.errors.len();
    if n == 0 {
        let suffix = warning_suffix_str(findings.warnings.len());
        out.line3(
            Style::Plain,
            "  Result: ",
            Style::GreenBold,
            "valid",
            Style::Yellow,
            suffix.as_str(),
        );
    } else {
        let count = usize_to_string(n);
        let tail = concat5(" (", count.as_str(), " error", plural_str(n), ")");
        out.line3(
            Style::Plain,
            "  Result: ",
            Style::RedBold,
            "invalid",
            Style::Plain,
            tail.as_str(),
        );
    }
    assert(out@ =~= validation_lines(file@, *loaded, groups@));
    out
}

/// A profile is reported valid exactly where it was loaded, names no unknown group and leaves out
/// no required one.
pub proof fn law_valid_profiles(loaded: Loaded, groups: Seq<(String, Group)>)
    ensures
        profile_errors(loaded, groups).len() == 0 <==> {
            &&& loaded is Ok
            &&& unknown_groups(views((loaded->Ok_0).groups.included@), groups).len() == 0
            &&& required_groups(views((loaded->Ok_0).groups.excluded@), groups).len() == 0
        },
{
}

} // verus!
