//! Turning a draft of a profile into the profile.

use crate::digest::{is_hash_text, looks_like_hash, sha256_digest, sha256_hex};
use crate::error::{ErrorView, NonoError};
use crate::policy::{list_required_groups, list_unknown_groups, required_groups, unknown_groups, Group};
use crate::profile::{is_valid_profile_name, valid_profile_name, Profile};
use crate::pty_proxy::session::{lossy_text, text_of_bytes};
use crate::report::{blank_line, line_view, LineView, Report, Span, Style};
use crate::text::{
    concat2, concat3, concat4, concat5, concat9, copy_str, hex_text, is_blank, join,
    join_strings, lower, push_copy, push_wrapped, str_eq,
    str_eq_ignore_case, str_is_blank, str_trim, trim, u64_to_string, decimal, views, wrapped,
};
use similar::{ChangeTag, TextDiff};
use vstd::prelude::*;
use vstd::utf8::{decode_utf8, valid_utf8};

verus! {

// ---------------------------------------------------------------------------
// Checks on the request and the draft
// ---------------------------------------------------------------------------

/// The failure of a request that contradicts itself or names no draft.
pub open spec fn request_failure(diff: bool, yes: bool, name: Seq<char>) -> Option<ErrorView> {
    if diff && yes {
        Some(ErrorView::ProfileParse("`--diff` cannot be combined with `--yes`"@))
    } else if !valid_profile_name(name) {
        Some(ErrorView::ProfileParse("invalid draft profile name '"@ + name + "'"@))
    } else {
        None
    }
}

pub fn check_promote_request(diff: bool, yes: bool, name: &str) -> (r: Result<(), NonoError>)
    ensures
        match r {
            Ok(()) => request_failure(diff, yes, name@) is None,
            Err(e) => request_failure(diff, yes, name@) == Some(e@),
        },
{
    if diff && yes {
        return Err(
            NonoError::ProfileParse(copy_str("`--diff` cannot be combined with `--yes`")),
        );
    }
    if !is_valid_profile_name(name) {
        return Err(
            NonoError::ProfileParse(concat3("invalid draft profile name '", name, "'")),
        );
    }
    Ok(())
}

/// A draft must give itself the name under which it is kept.
pub fn check_draft_name(meta_name: &str, name: &str) -> (r: Result<(), NonoError>)
    ensures
        r is Ok <==> meta_name@ == name@,
        r is Err ==> (r->Err_0)@ == ErrorView::ProfileParse(
            "draft meta.name '"@ + meta_name@ + "' does not match draft name '"@ + name@ + "'"@,
        ),
{
    if str_eq(meta_name, name) {
        Ok(())
    } else {
        Err(
            NonoError::ProfileParse(
                concat5("draft meta.name '", meta_name, "' does not match draft name '", name, "'"),
            ),
        )
    }
}

/// The complaint about a list with a blank path.
pub open spec fn blank_complaint(paths: Seq<Seq<char>>, label: Seq<char>) -> Seq<Seq<char>> {
    if exists|i: int| 0 <= i < paths.len() && is_blank(#[trigger] paths[i]) {
        seq!["empty path in "@ + label]
    } else {
        Seq::empty()
    }
}

fn push_blank_complaint(v: &mut Vec<String>, paths: &Vec<String>, label: &str)
    ensures
        views(final(v)@) == views(old(v)@) + blank_complaint(views(paths@), label@),
{
    let ghost before = views(v@);
    let mut i: usize = 0;
    while i < paths.len() && !str_is_blank(paths[i].as_str())
        invariant
            i <= paths@.len(),
            before == views(v@),
            before == views(old(v)@),
            forall|k: int| 0 <= k < i ==> !is_blank(#[trigger] views(paths@)[k]),
        decreases paths@.len() - i,
    {
        assert(views(paths@)[i as int] == paths@[i as int]@);
        i += 1;
    }
    if i < paths.len() {
        assert(is_blank(views(paths@)[i as int]));
        let s = concat2("empty path in ", label);
        push_copy(v, s.as_str());
    }
    assert(views(v@) =~= before + blank_complaint(views(paths@), label@));
}

/// What stands against promoting a profile.
pub open spec fn promote_errors(p: Profile, groups: Seq<(String, Group)>) -> Seq<Seq<char>> {
    let fs = p.filesystem;
    wrapped(
        "group '"@,
        unknown_groups(views(p.groups.included@), groups),
        "' not found in policy.json"@,
    ) + wrapped(
        "cannot exclude required group '"@,
        required_groups(views(p.groups.excluded@), groups),
        "'"@,
    ) + blank_complaint(views(fs.allow@), "filesystem.allow"@) + blank_complaint(
        views(fs.read@),
        "filesystem.read"@,
    ) + blank_complaint(views(fs.write@), "filesystem.write"@) + blank_complaint(
        views(fs.allow_file@),
        "filesystem.allow_file"@,
    ) + blank_complaint(views(fs.read_file@), "filesystem.read_file"@) + blank_complaint(
        views(fs.write_file@),
        "filesystem.write_file"@,
    )
}

/// Checks a draft with its base profiles merged in.
pub fn validate_promote_profile(p: &Profile, groups: &Vec<(String, Group)>) -> (r: Result<
    (),
    NonoError,
>)
    ensures
        r is Ok <==> promote_errors(*p, groups@).len() == 0,
        r is Err ==> (r->Err_0)@ == ErrorView::ProfileParse(
            "draft profile failed validation: "@ + join(promote_errors(*p, groups@), "; "@),
        ),
{
    let mut errors: Vec<String> = Vec::new();
    assert(views(errors@) =~= Seq::<Seq<char>>::empty());
    push_wrapped(
        &mut errors,
        "group '",
        &list_unknown_groups(&p.groups.included, groups),
        "' not found in policy.json",
    );
    push_wrapped(
        &mut errors,
        "cannot exclude required group '",
        &list_required_groups(&p.groups.excluded, groups),
        "'",
    );
    push_blank_complaint(&mut errors, &p.filesystem.allow, "filesystem.allow");
    push_blank_complaint(&mut errors, &p.filesystem.read, "filesystem.read");
    push_blank_complaint(&mut errors, &p.filesystem.write, "filesystem.write");
    push_blank_complaint(&mut errors, &p.filesystem.allow_file, "filesystem.allow_file");
    push_blank_complaint(&mut errors, &p.filesystem.read_file, "filesystem.read_file");
    push_blank_complaint(&mut errors, &p.filesystem.write_file, "filesystem.write_file");
    assert(views(errors@) =~= promote_errors(*p, groups@));
    assert(views(errors@).len() == errors@.len());
    if errors.len() == 0 {
        Ok(())
    } else {
        let all = join_strings(&errors, "; ");
        Err(
            NonoError::ProfileParse(concat2("draft profile failed validation: ", all.as_str())),
        )
    }
}

/// Where a name that is not the user's own comes from.
pub open spec fn reserved_source(builtin: bool, in_pack: bool) -> Option<Seq<char>> {
    if builtin {
        Some("built-in"@)
    } else if in_pack {
        Some("installed pack"@)
    } else {
        None
    }
}

pub fn reserved_profile_source(builtin: bool, in_pack: bool) -> (r: Option<&'static str>)
    ensures
        match r {
            Some(s) => reserved_source(builtin, in_pack) == Some(s@),
            None => reserved_source(builtin, in_pack) is None,
        },
{
    if builtin {
        Some("built-in")
    } else if in_pack {
        Some("installed pack")
    } else {
        None
    }
}

pub open spec fn shadowing_message(name: Seq<char>, source: Seq<char>) -> Seq<char> {
    "refusing to promote '"@ + name + "' because it would shadow a "@ + source
        + " profile. Draft a derived profile such as '"@ + name + "-local' with \"extends\": \""@
        + name + "\" instead."@
}

/// A new profile may not hide one of another source; one that exists already may be replaced.
pub fn check_shadowing(name: &str, has_current: bool, builtin: bool, in_pack: bool) -> (r: Result<
    (),
    NonoError,
>)
    ensures
        r is Ok <==> has_current || reserved_source(builtin, in_pack) is None,
        r is Err ==> (r->Err_0)@ == ErrorView::ProfileParse(
            shadowing_message(name@, reserved_source(builtin, in_pack)->0),
        ),
{
    if has_current {
        return Ok(());
    }
    match reserved_profile_source(builtin, in_pack) {
        Some(source) => Err(
            NonoError::ProfileParse(
                concat9(
                    "refusing to promote '",
                    name,
                    "' because it would shadow a ",
                    source,
                    " profile. Draft a derived profile such as '",
                    name,
                    "-local' with \"extends\": \"",
                    name,
                    "\" instead.",
                ),
            ),
        ),
        None => Ok(()),
    }
}

// ---------------------------------------------------------------------------
// Files
// ---------------------------------------------------------------------------

/// What stands at a path.
#[derive(Clone, Copy, Debug, PartialEq, Eq, Structural)]
pub enum FileEntry {
    Missing,
    Symlink,
    Regular,
    Other,
}

/// Whether a regular file stands at a path; anything else there is a failure.
pub fn regular_file_exists(entry: FileEntry, label: &str, path: &str) -> (r: Result<bool, NonoError>)
    ensures
        match entry {
            FileEntry::Missing => r == Ok::<bool, NonoError>(false),
            FileEntry::Regular => r == Ok::<bool, NonoError>(true),
            FileEntry::Symlink => r is Err && (r->Err_0)@ == ErrorView::ProfileParse(
                label@ + " must not be a symlink: "@ + path@,
            ),
            FileEntry::Other => r is Err && (r->Err_0)@ == ErrorView::ProfileParse(
                label@ + " is not a regular file: "@ + path@,
            ),
        },
{
    match entry {
        FileEntry::Missing => Ok(false),
        FileEntry::Regular => Ok(true),
        FileEntry::Symlink => Err(
            NonoError::ProfileParse(concat3(label, " must not be a symlink: ", path)),
        ),
        FileEntry::Other => Err(
            NonoError::ProfileParse(concat3(label, " is not a regular file: ", path)),
        ),
    }
}

/// The name under which a file is written before it takes its place.
pub fn temporary_file_name(file_name: &str, process: u32) -> (r: String)
    ensures
        r@ == "."@ + file_name@ + ".tmp."@ + decimal(process as nat),
{
    let id = u64_to_string(process as u64);
    concat4(".", file_name, ".tmp.", id.as_str())
}

// ---------------------------------------------------------------------------
// Hashes
// ---------------------------------------------------------------------------

/// Why the text of a base hash is not good enough for a profile with hash `current`.
pub open spec fn base_hash_failure(path: Seq<char>, text: Seq<char>, current: Seq<char>) -> Option<
    ErrorView,
> {
    let provided = trim(text);
    if !is_hash_text(provided) {
        Some(ErrorView::ProfileParse("invalid base hash in "@ + path))
    } else if lower(provided) != lower(current) {
        Some(
            ErrorView::ProfileParse(
                "draft base hash does not match current profile. The profile changed after the draft was written; regenerate or review the draft before promoting."@,
            ),
        )
    } else {
        None
    }
}

/// Compares the hash that a draft was based on with that of the current profile.
pub fn check_base_hash(path: &str, text: &str, current: &str) -> (r: Result<(), NonoError>)
    ensures
        match r {
            Ok(()) => base_hash_failure(path@, text@, current@) is None,
            Err(e) => base_hash_failure(path@, text@, current@) == Some(e@),
        },
{
    let provided = str_trim(text);
    if !looks_like_hash(provided.as_str()) {
        return Err(NonoError::ProfileParse(concat2("invalid base hash in ", path)));
    }
    if !str_eq_ignore_case(provided.as_str(), current) {
        return Err(
            NonoError::ProfileParse(
                copy_str(
                    "draft base hash does not match current profile. The profile changed after the draft was written; regenerate or review the draft before promoting.",
                ),
            ),
        );
    }
    Ok(())
}

/// What the standard library says of bytes that are no UTF-8.
pub uninterp spec fn utf8_complaint(bytes: Seq<u8>) -> Seq<char>;

/// The standard library's `std::str::from_utf8`: the text where the bytes are UTF-8, and else
/// the text of the error, a function of the bytes.
#[verifier::external_body]
pub(crate) fn text_from_utf8(bytes: &[u8]) -> (r: Result<String, String>)
    ensures
        match r {
            Ok(s) => valid_utf8(bytes@) && s@ == decode_utf8(bytes@),
            Err(m) => !valid_utf8(bytes@) && m@ == utf8_complaint(bytes@),
        },
{
    std::str::from_utf8(bytes).map(|s| s.to_string()).map_err(|e| e.to_string())
}

/// Checks that the draft was written against the profile as it is now.
pub fn verify_base_hash(path: &str, base: &[u8], current: &[u8]) -> (r: Result<(), NonoError>)
    ensures
        !valid_utf8(base@) ==> r is Err && (r->Err_0)@ == ErrorView::ProfileParse(
            "base hash is not UTF-8: "@ + utf8_complaint(base@),
        ),
        valid_utf8(base@) ==> match r {
            Ok(()) => base_hash_failure(
                path@,
                decode_utf8(base@),
                hex_text(sha256_digest(current@)),
            ) is None,
            Err(e) => base_hash_failure(
                path@,
                decode_utf8(base@),
                hex_text(sha256_digest(current@)),
            ) == Some(e@),
        },
{
    match text_from_utf8(base) {
        Ok(text) => {
            let hash = sha256_hex(current);
            check_base_hash(path, text.as_str(), hash.as_str())
        },
        Err(m) => Err(
            NonoError::ProfileParse(concat2("base hash is not UTF-8: ", m.as_str())),
        ),
    }
}

/// A hash in hexadecimal is accepted as its own base hash, also with white space around it.
pub proof fn law_own_hash_is_accepted(path: Seq<char>, text: Seq<char>, current: Seq<char>)
    requires
        is_hash_text(current),
        trim(text) == current,
    ensures
        base_hash_failure(path, text, current) is None,
{
}

/// A base hash that is accepted differs from the hash of the current profile at most in case.
pub proof fn law_accepted_hash_is_the_current(path: Seq<char>, text: Seq<char>, current: Seq<char>)
    requires
        base_hash_failure(path, text, current) is None,
    ensures
        lower(trim(text)) == lower(current),
        is_hash_text(trim(text)),
{
}

// ---------------------------------------------------------------------------
// The difference
// ---------------------------------------------------------------------------

/// What happened to a line.
#[derive(Clone, Copy, Debug, PartialEq, Eq, Structural)]
pub enum LineTag {
    Equal,
    Delete,
    Insert,
}

/// The lines of two texts with what became of them, each line with its end.
pub uninterp spec fn line_changes(old_text: Seq<char>, new_text: Seq<char>) -> Seq<
    (LineTag, Seq<char>),
>;

pub open spec fn change_views(v: Seq<(LineTag, String)>) -> Seq<(LineTag, Seq<char>)> {
    v.map_values(|c: (LineTag, String)| (c.0, c.1@))
}

/// `TextDiff::from_lines` of the crate `similar`, walked with `iter_all_changes`: a function of the
/// two texts. The text of a change is what its `Display` writes, which ends the line where the
/// line has no end.
#[verifier::external_body]
fn changes_between(old_text: &str, new_text: &str) -> (r: Vec<(LineTag, String)>)
    ensures
        change_views(r@) == line_changes(old_text@, new_text@),
{
    TextDiff::from_lines(old_text, new_text)
        .iter_all_changes()
        .map(|change| match change.tag() {
            ChangeTag::Equal => (LineTag::Equal, change.to_string()),
            ChangeTag::Delete => (LineTag::Delete, change.to_string()),
            ChangeTag::Insert => (LineTag::Insert, change.to_string()),
        })
        .collect()
}

/// One change as it is printed.
pub open spec fn change_span(c: (LineTag, Seq<char>)) -> (Style, Seq<char>) {
    match c.0 {
        LineTag::Equal => (Style::Plain, " "@ + c.1),
        LineTag::Delete => (Style::Red, "-"@ + c.1),
        LineTag::Insert => (Style::Green, "+"@ + c.1),
    }
}

/// Some line was added or taken away.
pub open spec fn any_change(changes: Seq<(LineTag, Seq<char>)>) -> bool {
    exists|i: int| 0 <= i < changes.len() && (#[trigger] changes[i]).0 != LineTag::Equal
}

/// A difference to print: lines, then pieces that bring their own line ends, then lines.
pub struct PromoteDiff {
    pub head: Report,
    pub changes: Vec<Span>,
    pub tail: Report,
}

pub open spec fn promote_head(name: Seq<char>) -> Seq<LineView> {
    Seq::<LineView>::empty().push(
        seq![
            (Style::Brand, "nono profile"@),
            (Style::Plain, ": promote draft '"@),
            (Style::TextBold, name),
            (Style::Plain, "'"@),
        ],
    ).push(blank_line()).push(seq![(Style::Plain, "  "@), (Style::SubtextBold, "Diff:"@)]).push(
        seq![(Style::Plain, "--- profiles/"@), (Style::Plain, name), (Style::Plain, ".json"@)],
    ).push(
        seq![(Style::Plain, "+++ profile-drafts/"@), (Style::Plain, name), (Style::Plain, ".json"@)],
    )
}

pub open spec fn promote_tail(changed: bool) -> Seq<LineView> {
    if changed {
        Seq::<LineView>::empty().push(blank_line())
    } else {
        Seq::<LineView>::empty().push(
            seq![(Style::Plain, "  "@), (Style::Subtext, "(no differences)"@)],
        ).push(blank_line())
    }
}

/// Lays out the changes between a profile and its draft.
pub fn promote_diff(name: &str, changes: &Vec<(LineTag, String)>) -> (r: PromoteDiff)
    ensures
        r.head@ == promote_head(name@),
        line_view(r.changes@) == change_views(changes@).map_values(
            |c: (LineTag, Seq<char>)| change_span(c),
        ),
        r.tail@ == promote_tail(any_change(change_views(changes@))),
{
    let mut head = Report::new();
    head.line4(
        Style::Brand,
        "nono profile",
        Style::Plain,
        ": promote draft '",
        Style::TextBold,
        name,
        Style::Plain,
        "'",
    );
    head.blank();
    head.line2(Style::Plain, "  ", Style::SubtextBold, "Diff:");
    head.line3(Style::Plain, "--- profiles/", Style::Plain, name, Style::Plain, ".json");
    head.line3(Style::Plain, "+++ profile-drafts/", Style::Plain, name, Style::Plain, ".json");
    let mut spans: Vec<Span> = Vec::new();
    let mut changed = false;
    let ghost all = change_views(changes@);
    let mut i: usize = 0;
    while i < changes.len()
        invariant
            i <= changes@.len(),
            all == change_views(changes@),
            spans@.len() == i,
            forall|k: int|
                0 <= k < i ==> (#[trigger] spans@[k]).style == change_span(all[k]).0
                    && spans@[k].text@ == change_span(all[k]).1,
            changed == exists|k: int| 0 <= k < i && (#[trigger] all[k]).0 != LineTag::Equal,
        decreases changes@.len() - i,
    {
        assert(all[i as int] == (changes@[i as int].0, changes@[i as int].1@));
        let line = changes[i].1.as_str();
        match changes[i].0 {
            LineTag::Equal => {
                spans.push(Span { style: Style::Plain, text: concat2(" ", line) });
            },
            LineTag::Delete => {
                changed = true;
                spans.push(Span { style: Style::Red, text: concat2("-", line) });
            },
            LineTag::Insert => {
                changed = true;
                spans.push(Span { style: Style::Green, text: concat2("+", line) });
            },
        }
        i += 1;
    }
    let mut tail = Report::new();
    if !changed {
        tail.line2(Style::Plain, "  ", Style::Subtext, "(no differences)");
    }
    tail.blank();
    assert(line_view(spans@) =~= all.map_values(|c: (LineTag, Seq<char>)| change_span(c)));
    PromoteDiff { head, changes: spans, tail }
}

/// The text of the current profile; empty where there is none.
pub open spec fn current_text(current: Option<Vec<u8>>) -> Seq<char> {
    match current {
        Some(b) => lossy_text(b@),
        None => ""@,
    }
}

/// Shows what promoting a draft would change.
pub fn print_promote_diff(name: &str, current: &Option<Vec<u8>>, draft: &[u8]) -> (r: PromoteDiff)
    ensures
        r.head@ == promote_head(name@),
        line_view(r.changes@) == line_changes(current_text(*current), lossy_text(draft@)).map_values(
            |c: (LineTag, Seq<char>)| change_span(c),
        ),
        r.tail@ == promote_tail(
            any_change(line_changes(current_text(*current), lossy_text(draft@))),
        ),
{
    let old_text = match current {
        Some(b) => text_of_bytes(b),
        None => copy_str(""),
    };
    let new_text = text_of_bytes(draft);
    promote_diff(name, &changes_between(old_text.as_str(), new_text.as_str()))
}

/// What is done once the difference is shown.
#[derive(Clone, Copy, Debug, PartialEq, Eq, Structural)]
pub enum PromoteStep {
    /// Only the difference was asked for.
    Stop,
    /// The user has to be asked first.
    Ask,
    Write,
}

pub fn promote_step(diff: bool, yes: bool) -> (r: PromoteStep)
    ensures
        r == if diff {
            PromoteStep::Stop
        } else if yes {
            PromoteStep::Write
        } else {
            PromoteStep::Ask
        },
{
    if diff {
        PromoteStep::Stop
    } else if yes {
        PromoteStep::Write
    } else {
        PromoteStep::Ask
    }
}

// ---------------------------------------------------------------------------
// The whole check
// ---------------------------------------------------------------------------

/// What is known of a draft and of what it would replace: the name that it gives itself, the
/// profile with its bases merged in, what stands at the target and what it holds, whether the name
/// is taken, and the hash that the draft was based on.
pub struct PromoteFacts {
    pub meta_name: String,
    pub resolved: Result<Profile, NonoError>,
    pub target: FileEntry,
    pub target_path: String,
    pub current: Result<Vec<u8>, NonoError>,
    pub builtin: bool,
    pub in_pack: bool,
    pub base_path: String,
    pub base: Result<Vec<u8>, NonoError>,
}

/// What stands against the draft itself.
pub open spec fn draft_failure(name: Seq<char>, f: PromoteFacts, groups: Seq<(String, Group)>) -> Option<
    ErrorView,
> {
    if f.meta_name@ != name {
        Some(
            ErrorView::ProfileParse(
                "draft meta.name '"@ + f.meta_name@ + "' does not match draft name '"@ + name
                    + "'"@,
            ),
        )
    } else {
        match f.resolved {
            Err(e) => Some(e@),
            Ok(p) => if promote_errors(p, groups).len() > 0 {
                Some(
                    ErrorView::ProfileParse(
                        "draft profile failed validation: "@ + join(
                            promote_errors(p, groups),
                            "; "@,
                        ),
                    ),
                )
            } else {
                None
            },
        }
    }
}

/// What stands against replacing what is at the target.
pub open spec fn target_failure(name: Seq<char>, f: PromoteFacts) -> Option<ErrorView> {
    match f.target {
        FileEntry::Symlink => Some(
            ErrorView::ProfileParse("target profile must not be a symlink: "@ + f.target_path@),
        ),
        FileEntry::Other => Some(
            ErrorView::ProfileParse("target profile is not a regular file: "@ + f.target_path@),
        ),
        FileEntry::Missing => match reserved_source(f.builtin, f.in_pack) {
            Some(source) => Some(ErrorView::ProfileParse(shadowing_message(name, source))),
            None => None,
        },
        FileEntry::Regular => match f.current {
            Err(e) => Some(e@),
            Ok(bytes) => match f.base {
                Err(e) => Some(e@),
                Ok(base) => if !valid_utf8(base@) {
                    Some(
                        ErrorView::ProfileParse(
                            "base hash is not UTF-8: "@ + utf8_complaint(base@),
                        ),
                    )
                } else {
                    base_hash_failure(
                        f.base_path@,
                        decode_utf8(base@),
                        hex_text(sha256_digest(bytes@)),
                    )
                },
            },
        },
    }
}

/// Decides whether a draft may become the profile: by the draft first, then by what it would
/// replace.
pub fn cmd_promote(name: &str, f: &PromoteFacts, groups: &Vec<(String, Group)>) -> (r: Result<
    (),
    NonoError,
>)
    ensures
        match r {
            Ok(()) => draft_failure(name@, *f, groups@) is None && target_failure(
                name@,
                *f,
            ) is None,
            Err(e) => match draft_failure(name@, *f, groups@) {
                Some(d) => d == e@,
                None => target_failure(name@, *f) == Some(e@),
            },
        },
{
    if let Err(e) = check_draft_name(f.meta_name.as_str(), name) {
        return Err(e);
    }
    match &f.resolved {
        Err(e) => {
            return Err(e.copy());
        },
        Ok(p) => {
            if let Err(e) = validate_promote_profile(p, groups) {
                return Err(e);
            }
        },
    }
    let present = match regular_file_exists(f.target, "target profile", f.target_path.as_str()) {
        Ok(b) => b,
        Err(e) => {
            proof {
                reveal_strlit("target profile");
                reveal_strlit(" must not be a symlink: ");
                reveal_strlit(" is not a regular file: ");
                reveal_strlit("target profile must not be a symlink: ");
                reveal_strlit("target profile is not a regular file: ");
                assert("target profile"@ + " must not be a symlink: "@
                    =~= "target profile must not be a symlink: "@);
                assert("target profile"@ + " is not a regular file: "@
                    =~= "target profile is not a regular file: "@);
            }
            return Err(e);
        },
    };
    if !present {
        return check_shadowing(name, false, f.builtin, f.in_pack);
    }
    match (&f.current, &f.base) {
        (Err(e), _) => Err(e.copy()),
        (Ok(_), Err(e)) => Err(e.copy()),
        (Ok(bytes), Ok(base)) => verify_base_hash(f.base_path.as_str(), base, bytes),
    }
}

/// No draft replaces a profile that changed since the draft was written.
pub proof fn law_changed_profiles_are_not_replaced(name: Seq<char>, f: PromoteFacts)
    requires
        f.target == FileEntry::Regular,
        target_failure(name, f) is None,
    ensures
        f.current is Ok,
        f.base is Ok,
        lower(trim(decode_utf8((f.base->Ok_0)@))) == lower(
            hex_text(sha256_digest((f.current->Ok_0)@)),
        ),
{
}

} // verus!
