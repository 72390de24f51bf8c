//! What is asked, what answers mean, and what is saved.

use crate::profile::{valid_profile_name, Profile};
use crate::profile_save_runtime::offer::{save_step, DoView, SaveEvent, SaveStage, SaveView};
use crate::profile_save_runtime::prompts::{
    can_ask, choice_of, command_slug, name_answer, shadows, slug, suggested_name,
    without_hyphens_at_end, NameAnswerView, ProfileSaveChoice,
};
use crate::profile_save_runtime::save::{
    is_new_profile, path_preview, preview_section, rule_preview, save_lines, PreparedProfileSave,
    SaveAction,
};
use crate::report::{LineView, Style};
use crate::text::{is_alnum, lemma_in_sum, lower, lower_char, trim, views};
use vstd::prelude::*;

verus! {

// ---------------------------------------------------------------------------
// Answers
// ---------------------------------------------------------------------------

pub open spec fn means_skip(t: Seq<char>) -> bool {
    t.len() == 0 || t == "n"@ || t == "no"@ || t == "skip"@
}

pub open spec fn means_grant(t: Seq<char>) -> bool {
    t == "g"@ || t == "grant"@ || t == "y"@ || t == "yes"@ || t == "save"@
}

pub open spec fn means_suppress(t: Seq<char>) -> bool {
    t == "s"@ || t == "suppress"@ || t == "suppress-save-prompt"@ || t == "no-nag"@ || t
        == "no_nag"@ || t == "nonag"@
}

/// An answer grants, silences or skips exactly where it is one of the words for that; silencing is
/// only there where it is offered. Any other answer means nothing.
pub proof fn law_choices(t: Seq<char>, can_suppress: bool)
    ensures
        choice_of(t, can_suppress) == Some(ProfileSaveChoice::Skip) <==> means_skip(t),
        choice_of(t, can_suppress) == Some(ProfileSaveChoice::Grant) <==> means_grant(t),
        choice_of(t, can_suppress) == Some(ProfileSaveChoice::Suppress) <==> can_suppress
            && means_suppress(t),
        choice_of(t, can_suppress) is None <==> !means_skip(t) && !means_grant(t) && !(can_suppress
            && means_suppress(t)),
{
    reveal_strlit("");
    reveal_strlit("n");
    reveal_strlit("no");
    reveal_strlit("skip");
    reveal_strlit("g");
    reveal_strlit("grant");
    reveal_strlit("y");
    reveal_strlit("yes");
    reveal_strlit("save");
    reveal_strlit("s");
    reveal_strlit("suppress");
    reveal_strlit("suppress-save-prompt");
    reveal_strlit("no-nag");
    reveal_strlit("no_nag");
    reveal_strlit("nonag");
    assert(t.len() == 0 ==> t =~= ""@);
    assert("skip"@[1] == 'k' && "save"@[1] == 'a');
    assert("n"@[0] == 'n' && "g"@[0] == 'g' && "y"@[0] == 'y' && "s"@[0] == 's');
    assert("grant"@[0] == 'g' && "nonag"@[0] == 'n');
}

/// The user can be asked exactly where a terminal is there and no word that means yes switches
/// asking off.
pub proof fn law_asking(switch: Option<Seq<char>>, terminal: bool)
    ensures
        can_ask(switch, terminal) <==> terminal && !(switch is Some && (switch->0 == "1"@
            || switch->0 == "true"@ || switch->0 == "yes"@)),
{
}

/// A letter or a digit of ASCII, or a hyphen.
pub open spec fn profile_name_char(c: char) -> bool {
    ||| 'a' <= c && c <= 'z'
    ||| 'A' <= c && c <= 'Z'
    ||| '0' <= c && c <= '9'
    ||| c == '-'
}

/// A name of a profile has letters, digits and hyphens, some of them, with no hyphen at an end.
pub proof fn law_profile_names(s: Seq<char>)
    ensures
        valid_profile_name(s) <==> {
            &&& s.len() > 0
            &&& forall|i: int| 0 <= i < s.len() ==> profile_name_char(#[trigger] s[i])
            &&& s[0] != '-'
            &&& s[s.len() - 1] != '-'
        },
{
    if valid_profile_name(s) {
        assert forall|i: int| 0 <= i < s.len() implies profile_name_char(#[trigger] s[i]) by {
            assert(is_alnum(s[i]) || s[i] == '-');
        }
    }
    if s.len() > 0 && (forall|i: int| 0 <= i < s.len() ==> profile_name_char(#[trigger] s[i])) {
        assert forall|i: int| 0 <= i < s.len() implies is_alnum(#[trigger] s[i]) || s[i] == '-' by {
            assert(profile_name_char(s[i]));
        }
    }
}

/// An empty answer takes the suggestion where there is one; the word that skips does, in any case;
/// a name of a profile is looked at; and anything else is asked again.
pub proof fn law_name_answers(input: Seq<char>, suggested: Option<Seq<char>>)
    ensures
        ({
            let t = trim(input);
            let skips = lower(t) == lower("skip"@);
            let r = name_answer(input, suggested);
            &&& t.len() == 0 && suggested is Some ==> r == NameAnswerView::Accept(suggested->0)
            &&& t.len() == 0 && suggested is None ==> r is Again
            &&& t.len() > 0 && skips ==> r is Skip
            &&& t.len() > 0 && !skips && valid_profile_name(t) ==> r == NameAnswerView::Candidate(t)
            &&& t.len() > 0 && !skips && !valid_profile_name(t) ==> r is Again
        }),
{
}

/// A new profile hides a built-in one exactly where it has its name and the user has no profile of
/// that name yet; where the built-in ones are not known, every name may.
pub proof fn law_hidden_profiles(name: Seq<char>, user_override: bool, builtin: Option<Seq<Seq<char>>>)
    ensures
        user_override ==> !shadows(name, user_override, builtin),
        !user_override && builtin is None ==> shadows(name, user_override, builtin),
        !user_override && builtin is Some ==> (shadows(name, user_override, builtin) <==> (
        builtin->0).contains(name)),
{
}

proof fn lemma_plain_slug(s: Seq<char>)
    requires
        forall|i: int| 0 <= i < s.len() ==> ('a' <= #[trigger] s[i] && s[i] <= 'z') || ('0' <= s[i]
            && s[i] <= '9'),
    ensures
        slug(s) == s,
    decreases s.len(),
{
    if s.len() > 0 {
        let front = s.drop_last();
        assert forall|i: int| 0 <= i < front.len() implies ('a' <= #[trigger] front[i] && front[i]
            <= 'z') || ('0' <= front[i] && front[i] <= '9') by {
            assert(front[i] == s[i]);
        }
        lemma_plain_slug(front);
        let c = s[s.len() - 1];
        assert(is_alnum(c) && lower_char(c) == c);
        assert(front.push(c) =~= s);
    } else {
        assert(slug(s) =~= s);
    }
}

/// A command of small letters and digits gives its own name.
pub proof fn law_plain_commands_give_their_names(s: Seq<char>)
    requires
        s.len() > 0,
        forall|i: int| 0 <= i < s.len() ==> ('a' <= #[trigger] s[i] && s[i] <= 'z') || ('0' <= s[i]
            && s[i] <= '9'),
    ensures
        command_slug(s) == Some(s),
{
    lemma_plain_slug(s);
    assert(s[s.len() - 1] != '-' && s[0] != '-');
    assert(without_hyphens_at_end(s) == s);
    assert forall|i: int| 0 <= i < s.len() implies is_alnum(#[trigger] s[i]) || s[i] == '-' by {}
}

/// What is suggested: the name of the profile in use with `-local` behind it, where it is not the
/// user's own; else the name that the command gives, unless that hides a built-in profile.
pub proof fn law_suggested_names(
    compared: Option<Seq<char>>,
    compared_override: bool,
    command: Seq<char>,
    command_override: bool,
    builtin: Option<Seq<Seq<char>>>,
)
    ensures
        ({
            let r = suggested_name(compared, compared_override, command, command_override, builtin);
            let foreign = compared is Some && valid_profile_name(compared->0) && !compared_override;
            &&& foreign ==> r == Some(compared->0 + "-local"@)
            &&& !foreign && command_slug(command) is None ==> r is None
            &&& !foreign && command_slug(command) is Some && shadows(
                command_slug(command)->0,
                command_override,
                builtin,
            ) ==> r is None
            &&& !foreign && command_slug(command) is Some && !shadows(
                command_slug(command)->0,
                command_override,
                builtin,
            ) ==> r == command_slug(command)
        }),
{
}

// ---------------------------------------------------------------------------
// The dialogue
// ---------------------------------------------------------------------------

/// The user's own profile that is in use, which is then updated.
pub open spec fn own_profile(st: SaveView) -> bool {
    st.compared is Some && valid_profile_name(st.compared->0) && st.compared_override
}

/// After the choice: skipping ends the dialogue; granting goes on at once where no rule is
/// overridden, and else asks for the word; silencing goes on at once. Where the profile in use is
/// the user's own it is saved to, and else a name is asked for.
pub proof fn law_dialogue_after_choice(st: SaveView, answer: String)
    requires
        st.stage == SaveStage::Choice,
    ensures
        ({
            let t = lower(trim(answer@));
            let (next, action) = save_step(st, SaveEvent::Line(Ok(answer)));
            let grants = means_grant(t) && !st.has_overrides;
            let silences = means_suppress(t) && st.has_suppression;
            &&& means_skip(t) ==> action is Finish && next.stage == SaveStage::Done
            &&& means_grant(t) && st.has_overrides ==> action is AskWord && next.stage
                == SaveStage::Word
            &&& grants && own_profile(st) ==> action == (DoView::Save {
                suppress: false,
                name: st.compared->0,
            })
            &&& silences && own_profile(st) ==> action == (DoView::Save {
                suppress: true,
                name: st.compared->0,
            })
            &&& (grants || silences) && !own_profile(st) ==> action is AskName && next.stage
                == SaveStage::Name && next.suppressing == silences
            &&& !means_skip(t) && !means_grant(t) && !silences ==> action is AskChoice
        }),
{
    let t = lower(trim(answer@));
    law_choices(t, st.has_suppression);
    if means_grant(t) {
        assert(choice_of(t, st.has_suppression) == Some(ProfileSaveChoice::Grant));
    }
    if means_suppress(t) && st.has_suppression {
        assert(choice_of(t, st.has_suppression) == Some(ProfileSaveChoice::Suppress));
    }
}

/// Only the word itself, in any case, goes on with grants that override rules.
pub proof fn law_dialogue_after_word(st: SaveView, answer: String)
    requires
        st.stage == SaveStage::Word,
    ensures
        ({
            let typed = lower(trim(answer@)) == lower("override"@);
            let (next, action) = save_step(st, SaveEvent::Line(Ok(answer)));
            &&& !typed ==> action is Finish
            &&& typed && own_profile(st) ==> action == (DoView::Save {
                suppress: false,
                name: st.compared->0,
            })
            &&& typed && !own_profile(st) ==> action is AskName && !next.suppressing
        }),
{
}

/// A name that was looked up is saved under unless it hides a built-in profile; then another one is
/// asked for. A name that is taken over is saved under at once.
pub proof fn law_dialogue_after_name(st: SaveView, answer: String, user_override: bool)
    ensures
        st.stage == SaveStage::Name ==> {
            let action = save_step(st, SaveEvent::Line(Ok(answer))).1;
            let r = name_answer(answer@, st.suggested);
            &&& r is Skip ==> action is Finish
            &&& r is Accept ==> action == (DoView::Save {
                suppress: st.suppressing,
                name: r->Accept_0,
            })
            &&& r is Candidate ==> action == DoView::LookUp(r->Candidate_0)
            &&& r is Again ==> action is AskName
        },
        st.stage == SaveStage::LookUp ==> {
            let action = save_step(st, SaveEvent::Looked { user_override }).1;
            let hides = shadows(st.candidate, user_override, st.builtin);
            &&& hides ==> action is AskName
            &&& !hides ==> action == (DoView::Save { suppress: st.suppressing, name: st.candidate })
        },
{
}

// ---------------------------------------------------------------------------
// What is saved
// ---------------------------------------------------------------------------

/// A new profile has the name that was chosen, all that the patch holds and nothing more, and builds
/// on the profile in use where that has another name.
pub proof fn law_new_profiles(
    r: Profile,
    patch: Profile,
    command: Seq<char>,
    name: Seq<char>,
    compared: Option<Seq<char>>,
)
    requires
        is_new_profile(r, patch, command, name, compared),
    ensures
        r.meta.name@ == name,
        r.filesystem == patch.filesystem,
        r.unsafe_macos_seatbelt_rules == patch.unsafe_macos_seatbelt_rules,
        r.network == patch.network,
        r.groups == patch.groups,
        r.extends is Some <==> compared is Some && valid_profile_name(compared->0) && compared->0
            != name,
        r.extends is Some ==> (r.extends->0)@.len() == 1 && (r.extends->0)@[0]@ == compared->0,
{
    if let Some(v) = r.extends {
        assert(views(v@).len() == v@.len());
        assert(views(v@)[0] == v@[0]@);
    }
}

/// The line on a path that is to be granted.
pub open spec fn shows(path: Seq<char>, label: Seq<char>, marked: bool) -> LineView {
    if marked {
        seq![
            (Style::Plain, "  "@),
            (Style::Red, "⚠"@),
            (Style::Plain, "  "@ + path + " ("@ + label + ")"@),
        ]
    } else {
        seq![(Style::Plain, "  "@ + path + "  ("@ + label + ")"@)]
    }
}

proof fn lemma_section(label: Seq<char>, v: Seq<String>, bypassed: Seq<Seq<char>>, i: int)
    requires
        0 <= i < v.len(),
    ensures
        preview_section(label, views(v), bypassed).contains(
            shows(v[i]@, label, bypassed.contains(v[i]@)),
        ),
{
    let s = preview_section(label, views(v), bypassed);
    assert(views(v)[i] == v[i]@);
    assert(s[i] == shows(v[i]@, label, bypassed.contains(v[i]@)));
}

/// Before anything is saved, every path is shown with the access that it would get; those whose
/// protection would be lifted are marked.
pub proof fn law_previews_show_all_paths(p: Profile, i: int)
    ensures
        ({
            let fs = p.filesystem;
            let b = views(fs.bypass_protection@);
            let l = path_preview(p);
            &&& 0 <= i < fs.allow@.len() ==> l.contains(
                shows(fs.allow@[i]@, "read+write dirs"@, b.contains(fs.allow@[i]@)),
            )
            &&& 0 <= i < fs.read@.len() ==> l.contains(
                shows(fs.read@[i]@, "read dirs"@, b.contains(fs.read@[i]@)),
            )
            &&& 0 <= i < fs.write@.len() ==> l.contains(
                shows(fs.write@[i]@, "write dirs"@, b.contains(fs.write@[i]@)),
            )
            &&& 0 <= i < fs.allow_file@.len() ==> l.contains(
                shows(fs.allow_file@[i]@, "read+write files"@, b.contains(fs.allow_file@[i]@)),
            )
            &&& 0 <= i < fs.read_file@.len() ==> l.contains(
                shows(fs.read_file@[i]@, "read files"@, b.contains(fs.read_file@[i]@)),
            )
            &&& 0 <= i < fs.write_file@.len() ==> l.contains(
                shows(fs.write_file@[i]@, "write files"@, b.contains(fs.write_file@[i]@)),
            )
        }),
{
    let fs = p.filesystem;
    let b = views(fs.bypass_protection@);
    if 0 <= i < fs.allow@.len() {
        lemma_section("read+write dirs"@, fs.allow@, b, i);
        lemma_in_preview(p, shows(fs.allow@[i]@, "read+write dirs"@, b.contains(fs.allow@[i]@)));
    }
    if 0 <= i < fs.read@.len() {
        lemma_section("read dirs"@, fs.read@, b, i);
        lemma_in_preview(p, shows(fs.read@[i]@, "read dirs"@, b.contains(fs.read@[i]@)));
    }
    if 0 <= i < fs.write@.len() {
        lemma_section("write dirs"@, fs.write@, b, i);
        lemma_in_preview(p, shows(fs.write@[i]@, "write dirs"@, b.contains(fs.write@[i]@)));
    }
    if 0 <= i < fs.allow_file@.len() {
        lemma_section("read+write files"@, fs.allow_file@, b, i);
        lemma_in_preview(
            p,
            shows(fs.allow_file@[i]@, "read+write files"@, b.contains(fs.allow_file@[i]@)),
        );
    }
    if 0 <= i < fs.read_file@.len() {
        lemma_section("read files"@, fs.read_file@, b, i);
        lemma_in_preview(p, shows(fs.read_file@[i]@, "read files"@, b.contains(fs.read_file@[i]@)));
    }
    if 0 <= i < fs.write_file@.len() {
        lemma_section("write files"@, fs.write_file@, b, i);
        lemma_in_preview(
            p,
            shows(fs.write_file@[i]@, "write files"@, b.contains(fs.write_file@[i]@)),
        );
    }
}

proof fn lemma_in_preview(p: Profile, x: LineView)
    ensures
        ({
            let fs = p.filesystem;
            let b = views(fs.bypass_protection@);
            preview_section("read+write dirs"@, views(fs.allow@), b).contains(x)
                || preview_section("read dirs"@, views(fs.read@), b).contains(x)
                || preview_section("write dirs"@, views(fs.write@), b).contains(x)
                || preview_section("read+write files"@, views(fs.allow_file@), b).contains(x)
                || preview_section("read files"@, views(fs.read_file@), b).contains(x)
                || preview_section("write files"@, views(fs.write_file@), b).contains(x)
        }) ==> path_preview(p).contains(x),
{
    let fs = p.filesystem;
    let b = views(fs.bypass_protection@);
    let s0 = Seq::<LineView>::empty().push(
        crate::profile_save_runtime::save::text_line("[nono] Paths to be saved as grants:"@),
    );
    let a1 = preview_section("read+write dirs"@, views(fs.allow@), b);
    let a2 = preview_section("read dirs"@, views(fs.read@), b);
    let a3 = preview_section("write dirs"@, views(fs.write@), b);
    let a4 = preview_section("read+write files"@, views(fs.allow_file@), b);
    let a5 = preview_section("read files"@, views(fs.read_file@), b);
    let a6 = preview_section("write files"@, views(fs.write_file@), b);
    let tail = seq![
        crate::report::blank_line(),
        crate::profile_save_runtime::save::text_line(
            "[nono] Choose suppress to keep denying all listed paths and stop future save suggestions."@,
        ),
        crate::profile_save_runtime::save::text_line(
            "[nono] CLI equivalent for one path: --suppress-save-prompt PATH"@,
        ),
    ];
    assert(a1.len() == fs.allow@.len() && a2.len() == fs.read@.len() && a3.len() == fs.write@.len());
    assert(a4.len() == fs.allow_file@.len() && a5.len() == fs.read_file@.len() && a6.len()
        == fs.write_file@.len());
    lemma_in_sum(s0, a1, x);
    lemma_in_sum(s0 + a1, a2, x);
    lemma_in_sum(s0 + a1 + a2, a3, x);
    lemma_in_sum(s0 + a1 + a2 + a3, a4, x);
    lemma_in_sum(s0 + a1 + a2 + a3 + a4, a5, x);
    lemma_in_sum(s0 + a1 + a2 + a3 + a4 + a5, a6, x);
    lemma_in_sum(s0 + a1 + a2 + a3 + a4 + a5 + a6, tail, x);
}

/// A raw rule that would be saved is shown, marked.
pub proof fn law_previews_show_all_rules(p: Profile, i: int)
    requires
        0 <= i < p.unsafe_macos_seatbelt_rules@.len(),
    ensures
        rule_preview(p).contains(
            seq![
                (Style::Plain, "  "@),
                (Style::Red, "⚠"@),
                (
                    Style::Plain,
                    "  "@ + p.unsafe_macos_seatbelt_rules@[i]@
                        + "  (unsafe_macos_seatbelt_rules)"@,
                ),
            ],
        ),
{
    let rules = views(p.unsafe_macos_seatbelt_rules@);
    assert(rules[i] == p.unsafe_macos_seatbelt_rules@[i]@);
    let all = rules.map_values(|r: Seq<char>| crate::profile_save_runtime::save::rule_line(r));
    let head = (if crate::profile_save_runtime::save::grants_paths(p) {
        seq![crate::report::blank_line()]
    } else {
        Seq::<LineView>::empty()
    }).push(
        crate::profile_save_runtime::save::text_line(
            "[nono] Unsafe macOS Seatbelt rules to be saved:"@,
        ),
    );
    assert(all.contains(all[i]));
    lemma_in_sum(head, all, all[i]);
}

/// What is said after saving begins with whether a profile was made or changed, and where it is, and
/// ends with how it is used.
pub proof fn law_said_after_saving(s: PreparedProfileSave, command_line: Seq<char>)
    ensures
        ({
            let l = save_lines(s, command_line);
            &&& l.len() >= 2
            &&& l[0][3] == (Style::Plain, s.profile_path@)
            &&& s.action == SaveAction::Created ==> l[0][1] == (Style::Green, "Profile saved:"@)
            &&& s.action == SaveAction::Updated ==> l[0][1] == (Style::Green, "Profile updated:"@)
            &&& l.last()[3] == (Style::Plain, s.profile_name@)
            &&& l.last()[5] == (Style::Plain, command_line)
        }),
{
}

/// It is said before saving that paths are normally blocked exactly where the patch lifts a
/// protection, and that rules weaken the sandbox exactly where it has raw rules.
pub proof fn law_warnings_before_saving(p: crate::profile::Profile)
    ensures
        ({
            let l = crate::profile_save_runtime::save::preview_warnings(p);
            let n = p.filesystem.bypass_protection@.len();
            let m = p.unsafe_macos_seatbelt_rules@.len();
            &&& n == 0 && m == 0 <==> l.len() == 0
            &&& n > 0 ==> l[1][0].1
                == "[nono]    Saving them adds filesystem.bypass_protection, which weakens sandbox protection."@
            &&& m > 0 ==> l.last()[0].1
                == "[nono]    Saving them adds unsafe_macos_seatbelt_rules, which bypasses nono's capability model and can weaken sandbox protection."@
            &&& n > 0 && m > 0 ==> l.len() == 4
            &&& (n > 0) != (m > 0) ==> l.len() == 2
        }),
{
}

} // verus!
