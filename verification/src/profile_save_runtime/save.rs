//! Saving a patch, and what the user is told of it.

use crate::profile::{is_valid_profile_name, valid_profile_name, Profile, ProfileMeta};
use crate::profile_cmd::validate::plural;
use crate::profile_save_runtime::patch::{
    merge_profile_patch, merged, patch_is_suppression_only, suppression_only,
};
use crate::report::{blank_line, LineView, Report, Style};
use crate::text::{
    concat2, concat3, concat5, contains_str, copy_str, decimal, opt_view, str_eq, usize_to_string,
    views,
};
use vstd::prelude::*;

verus! {

#[derive(Clone, Copy, Debug, PartialEq, Eq, Structural)]
pub enum SaveAction {
    Created,
    Updated,
}

/// A profile that is ready to be written.
#[derive(Debug)]
pub struct PreparedProfileSave {
    pub action: SaveAction,
    pub profile_name: String,
    pub profile_path: String,
    pub profile: Profile,
}

/// The profile in use, where a new profile can build on it.
pub open spec fn base_of(compared: Option<Seq<char>>, name: Seq<char>) -> Option<Seq<char>> {
    match compared {
        Some(b) => if valid_profile_name(b) && b != name {
            Some(b)
        } else {
            None
        },
        None => None,
    }
}

pub open spec fn new_description(command: Seq<char>, has_base: bool, suppression: bool) -> Seq<char> {
    if suppression {
        "Runtime-discovered save-prompt suppressions for "@ + command
    } else if has_base {
        "Runtime-discovered path additions for "@ + command
    } else {
        "Runtime-discovered path profile for "@ + command
    }
}

/// A new profile with what a patch holds.
pub open spec fn is_new_profile(
    r: Profile,
    patch: Profile,
    command: Seq<char>,
    name: Seq<char>,
    compared: Option<Seq<char>>,
) -> bool {
    &&& r.meta.name@ == name
    &&& r.meta.version@ == "1.0.0"@
    &&& opt_view(r.meta.description) == Some(
        new_description(command, base_of(compared, name) is Some, suppression_only(patch)),
    )
    &&& r.meta.author is None
    &&& match r.extends {
        Some(v) => base_of(compared, name) is Some && views(v@) == seq![
            base_of(compared, name)->0,
        ],
        None => base_of(compared, name) is None,
    }
    &&& r == (Profile { meta: r.meta, extends: r.extends, ..patch })
}

/// Merges a patch into the profile of a name, or makes a new profile of it.
pub fn prepare_profile_save_from_patch(
    patch: Profile,
    command: &str,
    name: &str,
    compared: &Option<String>,
    path: String,
    existing: Option<Profile>,
) -> (r: PreparedProfileSave)
    ensures
        r.profile_name@ == name@,
        r.profile_path == path,
        match existing {
            Some(p) => r.action == SaveAction::Updated && merged(r.profile, p, patch),
            None => r.action == SaveAction::Created && is_new_profile(
                r.profile,
                patch,
                command@,
                name@,
                opt_view(*compared),
            ),
        },
{
    if let Some(p) = existing {
        let mut profile = p;
        merge_profile_patch(&mut profile, &patch);
        return PreparedProfileSave {
            action: SaveAction::Updated,
            profile_name: copy_str(name),
            profile_path: path,
            profile,
        };
    }
    let extends = match compared {
        Some(b) => if is_valid_profile_name(b.as_str()) && !str_eq(b.as_str(), name) {
            let mut v: Vec<String> = Vec::new();
            v.push(copy_str(b.as_str()));
            assert(views(v@) =~= seq![b@]);
            Some(v)
        } else {
            None
        },
        None => None,
    };
    let description = if patch_is_suppression_only(&patch) {
        concat2("Runtime-discovered save-prompt suppressions for ", command)
    } else if extends.is_some() {
        concat2("Runtime-discovered path additions for ", command)
    } else {
        concat2("Runtime-discovered path profile for ", command)
    };
    let meta = ProfileMeta {
        name: copy_str(name),
        version: copy_str("1.0.0"),
        description: Some(description),
        author: None,
    };
    let mut profile = patch;
    profile.meta = meta;
    profile.extends = extends;
    PreparedProfileSave {
        action: SaveAction::Created,
        profile_name: copy_str(name),
        profile_path: path,
        profile,
    }
}

// ---------------------------------------------------------------------------
// The preview
// ---------------------------------------------------------------------------

/// One path that is to be granted; one whose protection is lifted is marked.
pub open spec fn preview_line(path: Seq<char>, label: Seq<char>, bypassed: Seq<Seq<char>>) -> LineView {
    if bypassed.contains(path) {
        seq![
            (Style::Plain, "  "@),
            (Style::Red, "⚠"@),
            (Style::Plain, "  "@ + path + " ("@ + label + ")"@),
        ]
    } else {
        seq![(Style::Plain, "  "@ + path + "  ("@ + label + ")"@)]
    }
}

pub open spec fn preview_section(label: Seq<char>, paths: Seq<Seq<char>>, bypassed: Seq<Seq<char>>) -> Seq<
    LineView,
> {
    paths.map_values(|p: Seq<char>| preview_line(p, label, bypassed))
}

fn add_preview_section(out: &mut Report, label: &str, paths: &Vec<String>, bypassed: &Vec<String>)
    ensures
        final(out)@ == old(out)@ + preview_section(label@, views(paths@), views(bypassed@)),
{
    let ghost all = preview_section(label@, views(paths@), views(bypassed@));
    let ghost start = out@;
    let mut i: usize = 0;
    assert(start + all.take(0) =~= start);
    while i < paths.len()
        invariant
            i <= paths@.len(),
            all == preview_section(label@, views(paths@), views(bypassed@)),
            out@ == start + all.take(i as int),
        decreases paths@.len() - i,
    {
        let p = paths[i].as_str();
        assert(all[i as int] == preview_line(p@, label@, views(bypassed@)));
        if contains_str(bypassed, p) {
            let text = concat5("  ", p, " (", label, ")");
            out.line3(Style::Plain, "  ", Style::Red, "⚠", Style::Plain, text.as_str());
        } else {
            let text = concat5("  ", p, "  (", label, ")");
            out.line1(Style::Plain, text.as_str());
        }
        i += 1;
        assert(all.take(i as int) =~= all.take(i - 1).push(all[i - 1]));
        assert(out@ =~= start + all.take(i as int));
    }
    assert(all.take(i as int) =~= all);
}

/// A patch grants a path.
pub open spec fn grants_paths(p: Profile) -> bool {
    let fs = p.filesystem;
    fs.allow@.len() > 0 || fs.read@.len() > 0 || fs.write@.len() > 0 || fs.allow_file@.len() > 0
        || fs.read_file@.len() > 0 || fs.write_file@.len() > 0
}

pub open spec fn text_line(text: Seq<char>) -> LineView {
    seq![(Style::Plain, text)]
}

pub open spec fn red_line(text: Seq<char>) -> LineView {
    seq![(Style::Red, text)]
}

/// The part of the preview with the paths.
pub open spec fn path_preview(p: Profile) -> Seq<LineView> {
    let fs = p.filesystem;
    let bypassed = views(fs.bypass_protection@);
    if !grants_paths(p) {
        Seq::empty()
    } else {
        Seq::<LineView>::empty().push(text_line("[nono] Paths to be saved as grants:"@))
            + preview_section("read+write dirs"@, views(fs.allow@), bypassed) + preview_section(
            "read dirs"@,
            views(fs.read@),
            bypassed,
        ) + preview_section("write dirs"@, views(fs.write@), bypassed) + preview_section(
            "read+write files"@,
            views(fs.allow_file@),
            bypassed,
        ) + preview_section("read files"@, views(fs.read_file@), bypassed) + preview_section(
            "write files"@,
            views(fs.write_file@),
            bypassed,
        ) + seq![
            blank_line(),
            text_line(
                "[nono] Choose suppress to keep denying all listed paths and stop future save suggestions."@,
            ),
            text_line(
                "[nono] CLI equivalent for one path: --suppress-save-prompt PATH"@,
            ),
        ]
    }
}

fn has_paths(p: &Profile) -> (r: bool)
    ensures
        r == grants_paths(*p),
{
    let fs = &p.filesystem;
    fs.allow.len() > 0 || fs.read.len() > 0 || fs.write.len() > 0 || fs.allow_file.len() > 0
        || fs.read_file.len() > 0 || fs.write_file.len() > 0
}

fn add_path_preview(out: &mut Report, p: &Profile)
    ensures
        final(out)@ == old(out)@ + path_preview(*p),
{
    let ghost before = out@;
    let fs = &p.filesystem;
    let bypassed = &fs.bypass_protection;
    if has_paths(p) {
        out.line1(Style::Plain, "[nono] Paths to be saved as grants:");
        add_preview_section(out, "read+write dirs", &fs.allow, bypassed);
        add_preview_section(out, "read dirs", &fs.read, bypassed);
        add_preview_section(out, "write dirs", &fs.write, bypassed);
        add_preview_section(out, "read+write files", &fs.allow_file, bypassed);
        add_preview_section(out, "read files", &fs.read_file, bypassed);
        add_preview_section(out, "write files", &fs.write_file, bypassed);
        out.blank();
        out.line1(
            Style::Plain,
            "[nono] Choose suppress to keep denying all listed paths and stop future save suggestions.",
        );
        out.line1(
            Style::Plain,
            "[nono] CLI equivalent for one path: --suppress-save-prompt PATH",
        );
    }
    assert(out@ =~= before + path_preview(*p));
}

pub open spec fn rule_line(rule: Seq<char>) -> LineView {
    seq![
        (Style::Plain, "  "@),
        (Style::Red, "⚠"@),
        (Style::Plain, "  "@ + rule + "  (unsafe_macos_seatbelt_rules)"@),
    ]
}

/// The part of the preview with the raw rules.
pub open spec fn rule_preview(p: Profile) -> Seq<LineView> {
    let rules = views(p.unsafe_macos_seatbelt_rules@);
    if rules.len() == 0 {
        Seq::empty()
    } else {
        (if grants_paths(p) {
            seq![blank_line()]
        } else {
            Seq::<LineView>::empty()
        }).push(text_line("[nono] Unsafe macOS Seatbelt rules to be saved:"@)) + rules.map_values(
            |r: Seq<char>| rule_line(r),
        )
    }
}

fn add_rule_preview(out: &mut Report, p: &Profile)
    ensures
        final(out)@ == old(out)@ + rule_preview(*p),
{
    let ghost before = out@;
    let rules = &p.unsafe_macos_seatbelt_rules;
    assert(views(rules@).len() == rules@.len());
    if rules.len() == 0 {
        assert(out@ =~= before + rule_preview(*p));
        return ;
    }
    if has_paths(p) {
        out.blank();
    }
    out.line1(Style::Plain, "[nono] Unsafe macOS Seatbelt rules to be saved:");
    let ghost start = out@;
    let ghost all = views(rules@).map_values(|r: Seq<char>| rule_line(r));
    let mut i: usize = 0;
    assert(start + all.take(0) =~= start);
    while i < rules.len()
        invariant
            i <= rules@.len(),
            all == views(rules@).map_values(|r: Seq<char>| rule_line(r)),
            out@ == start + all.take(i as int),
        decreases rules@.len() - i,
    {
        let text = concat3("  ", rules[i].as_str(), "  (unsafe_macos_seatbelt_rules)");
        assert(all[i as int] == rule_line(rules@[i as int]@));
        out.line3(Style::Plain, "  ", Style::Red, "⚠", Style::Plain, text.as_str());
        i += 1;
        assert(all.take(i as int) =~= all.take(i - 1).push(all[i - 1]));
        assert(out@ =~= start + all.take(i as int));
    }
    assert(all.take(i as int) =~= all);
    assert(out@ =~= before + rule_preview(*p));
}

/// What is said of the marked entries.
pub open spec fn preview_warnings(p: Profile) -> Seq<LineView> {
    (if p.filesystem.bypass_protection@.len() > 0 {
        seq![
            red_line("\n[nono] ⚠  The marked paths are normally blocked by security policy."@),
            red_line(
                "[nono]    Saving them adds filesystem.bypass_protection, which weakens sandbox protection."@,
            ),
        ]
    } else {
        Seq::<LineView>::empty()
    }) + (if p.unsafe_macos_seatbelt_rules@.len() > 0 {
        seq![
            red_line("\n[nono] ⚠  The marked rules are raw macOS Seatbelt policy."@),
            red_line(
                "[nono]    Saving them adds unsafe_macos_seatbelt_rules, which bypasses nono's capability model and can weaken sandbox protection."@,
            ),
        ]
    } else {
        Seq::<LineView>::empty()
    })
}

fn add_preview_warnings(out: &mut Report, p: &Profile)
    ensures
        final(out)@ == old(out)@ + preview_warnings(*p),
{
    let ghost before = out@;
    if p.filesystem.bypass_protection.len() > 0 {
        out.line1(
            Style::Red,
            "\n[nono] ⚠  The marked paths are normally blocked by security policy.",
        );
        out.line1(
            Style::Red,
            "[nono]    Saving them adds filesystem.bypass_protection, which weakens sandbox protection.",
        );
    }
    if p.unsafe_macos_seatbelt_rules.len() > 0 {
        out.line1(
            Style::Red,
            "\n[nono] ⚠  The marked rules are raw macOS Seatbelt policy.",
        );
        out.line1(
            Style::Red,
            "[nono]    Saving them adds unsafe_macos_seatbelt_rules, which bypasses nono's capability model and can weaken sandbox protection.",
        );
    }
    assert(out@ =~= before + preview_warnings(*p));
}

/// What would be saved, for people: nothing where the patch is empty.
pub fn print_patch_preview(patch: &Profile) -> (out: Report)
    ensures
        out@ == path_preview(*patch) + rule_preview(*patch) + preview_warnings(*patch),
{
    let mut out = Report::new();
    add_path_preview(&mut out, patch);
    add_rule_preview(&mut out, patch);
    add_preview_warnings(&mut out, patch);
    assert(out@ =~= path_preview(*patch) + rule_preview(*patch) + preview_warnings(*patch));
    out
}

// ---------------------------------------------------------------------------
// What was saved
// ---------------------------------------------------------------------------

fn plural_str(n: usize) -> (r: &'static str)
    ensures
        r@ == plural(n as nat),
{
    if n == 1 {
        ""
    } else {
        "s"
    }
}

/// A remark on a number of things, where there are any.
pub open spec fn count_remark(n: nat, before: Seq<char>, after: Seq<char>) -> Seq<LineView> {
    if n == 0 {
        Seq::empty()
    } else {
        seq![seq![(Style::Yellow, "  ("@ + decimal(n) + before + plural(n) + after)]]
    }
}

fn add_count_remark(out: &mut Report, n: usize, before: &str, after: &str)
    ensures
        final(out)@ == old(out)@ + count_remark(n as nat, before@, after@),
{
    let ghost start = out@;
    if n > 0 {
        let count = usize_to_string(n);
        let text = concat5("  (", count.as_str(), before, plural_str(n), after);
        out.line1(Style::Yellow, text.as_str());
    }
    assert(out@ =~= start + count_remark(n as nat, before@, after@));
}

pub open spec fn save_lines(s: PreparedProfileSave, command_line: Seq<char>) -> Seq<LineView> {
    Seq::<LineView>::empty().push(
        seq![
            (Style::Plain, "\n"@),
            (
                Style::Green,
                match s.action {
                    SaveAction::Created => "Profile saved:"@,
                    SaveAction::Updated => "Profile updated:"@,
                },
            ),
            (Style::Plain, " "@),
            (Style::Plain, s.profile_path@),
        ],
    ) + count_remark(
        s.profile.filesystem.bypass_protection@.len(),
        " path"@,
        " with filesystem.bypass_protection - review the profile before sharing)"@,
    ) + count_remark(
        s.profile.unsafe_macos_seatbelt_rules@.len(),
        " raw macOS Seatbelt rule"@,
        " via unsafe_macos_seatbelt_rules - review the profile before sharing)"@,
    ) + seq![
        seq![
            (Style::Plain, "Run with: "@),
            (Style::Bold, "nono run --profile"@),
            (Style::Plain, " "@),
            (Style::Plain, s.profile_name@),
            (Style::Plain, " -- "@),
            (Style::Plain, command_line),
        ],
    ]
}

/// Tells the user what was saved and how to use it.
pub fn print_profile_save(s: &PreparedProfileSave, command_line: &str) -> (out: Report)
    ensures
        out@ == save_lines(*s, command_line@),
{
    let status = match s.action {
        SaveAction::Created => "Profile saved:",
        SaveAction::Updated => "Profile updated:",
    };
    let mut out = Report::new();
    out.line4(
        Style::Plain,
        "\n",
        Style::Green,
        status,
        Style::Plain,
        " ",
        Style::Plain,
        s.profile_path.as_str(),
    );
    add_count_remark(
        &mut out,
        s.profile.filesystem.bypass_protection.len(),
        " path",
        " with filesystem.bypass_protection - review the profile before sharing)",
    );
    add_count_remark(
        &mut out,
        s.profile.unsafe_macos_seatbelt_rules.len(),
        " raw macOS Seatbelt rule",
        " via unsafe_macos_seatbelt_rules - review the profile before sharing)",
    );
    out.line6(
        Style::Plain,
        "Run with: ",
        Style::Bold,
        "nono run --profile",
        Style::Plain,
        " ",
        Style::Plain,
        s.profile_name.as_str(),
        Style::Plain,
        " -- ",
        Style::Plain,
        command_line,
    );
    assert(out@ =~= save_lines(*s, command_line@));
    out
}

/// The note on suggestions that will not come again, where there are any.
pub fn print_suppression_save_note(patch: &Profile) -> (r: Option<String>)
    ensures
        ({
            let n = patch.filesystem.suppress_save_prompt@.len();
            &&& r is Some <==> n > 0
            &&& r is Some ==> (r->0)@ == "  ("@ + decimal(n) + " path suggestion"@ + plural(n)
                + " suppressed; access is still denied)"@
        }),
{
    let n = patch.filesystem.suppress_save_prompt.len();
    if n == 0 {
        return None;
    }
    let count = usize_to_string(n);
    Some(
        concat5(
            "  (",
            count.as_str(),
            " path suggestion",
            plural_str(n),
            " suppressed; access is still denied)",
        ),
    )
}

} // verus!
