//! The questions put to the user, and how the answers are read.

use crate::error::{ErrorView, NonoError};
use crate::paths::{file_name, path_file_name};
use crate::profile::{is_valid_profile_name, valid_profile_name};
use crate::text::{
    char_is_alnum, char_to_lower, chars_of, concat2, concat3, contains_str, copy_str, from_chars,
    is_alnum, lower, lower_char, opt_view, str_eq, str_eq_ignore_case, str_lower, str_trim, trim,
    views,
};
use vstd::prelude::*;

verus! {

// ---------------------------------------------------------------------------
// Lines on the terminal
// ---------------------------------------------------------------------------

/// A message with the line end that a terminal in raw mode needs.
pub fn prompt_line(message: &str) -> (r: String)
    ensures
        r@ == message@ + "\r\n"@,
{
    concat2(message, "\r\n")
}

/// A question: from the start of the line, with the rest of the line cleared.
pub fn prompt_inline_for_tty(message: &str) -> (r: String)
    ensures
        r@ == "\r"@ + message@ + "\x1b[K"@,
{
    concat3("\r", message, "\x1b[K")
}

/// A message as a whole line: from the start of the line, with the rest of it cleared.
pub fn prompt_line_for_tty(message: &str) -> (r: String)
    ensures
        r@ == "\r"@ + message@ + "\x1b[K\r\n"@,
{
    concat3("\r", message, "\x1b[K\r\n")
}

/// The user can be asked: a terminal is there, and asking is not switched off.
pub open spec fn can_ask(switch: Option<Seq<char>>, terminal: bool) -> bool {
    terminal && switch != Some("1"@) && switch != Some("true"@) && switch != Some("yes"@)
}

/// Whether the user can be asked. `switch` is the value of the variable that switches asking off.
pub fn terminal_prompts_available(switch: &Option<String>, stdin: bool, stderr: bool, tty: bool) -> (r: bool)
    ensures
        r == can_ask(opt_view(*switch), stdin || stderr || tty),
{
    let off = match switch {
        Some(s) => str_eq(s.as_str(), "1") || str_eq(s.as_str(), "true") || str_eq(
            s.as_str(),
            "yes",
        ),
        None => false,
    };
    (stdin || stderr || tty) && !off
}

// ---------------------------------------------------------------------------
// What to do with the suggestions
// ---------------------------------------------------------------------------

#[derive(Clone, Copy, Debug, PartialEq, Eq, Structural)]
pub enum ProfileSaveChoice {
    Grant,
    Suppress,
    Skip,
}

/// What an answer means, in small letters and without white space around it.
pub open spec fn choice_of(t: Seq<char>, can_suppress: bool) -> Option<ProfileSaveChoice> {
    if t == ""@ || t == "n"@ || t == "no"@ || t == "skip"@ {
        Some(ProfileSaveChoice::Skip)
    } else if t == "g"@ || t == "grant"@ || t == "y"@ || t == "yes"@ || t == "save"@ {
        Some(ProfileSaveChoice::Grant)
    } else if can_suppress && (t == "s"@ || t == "suppress"@ || t == "suppress-save-prompt"@ || t == "no-nag"@ || t == "no_nag"@ || t == "nonag"@) {
        Some(ProfileSaveChoice::Suppress)
    } else {
        None
    }
}

/// Reads the answer to the question what to do with the suggestions.
pub fn parse_profile_save_choice(input: &str, can_suppress: bool) -> (r: Option<ProfileSaveChoice>)
    ensures
        r == choice_of(lower(trim(input@)), can_suppress),
{
    let trimmed = str_trim(input);
    let t = str_lower(trimmed.as_str());
    if str_eq(t.as_str(), "") || str_eq(t.as_str(), "n") || str_eq(t.as_str(), "no") || str_eq(t.as_str(), "skip") {
        Some(ProfileSaveChoice::Skip)
    } else if str_eq(t.as_str(), "g") || str_eq(t.as_str(), "grant") || str_eq(t.as_str(), "y") || str_eq(t.as_str(), "yes") || str_eq(t.as_str(), "save") {
        Some(ProfileSaveChoice::Grant)
    } else if can_suppress && (str_eq(t.as_str(), "s") || str_eq(t.as_str(), "suppress") || str_eq(t.as_str(), "suppress-save-prompt") || str_eq(t.as_str(), "no-nag") || str_eq(t.as_str(), "no_nag") || str_eq(t.as_str(), "nonag")) {
        Some(ProfileSaveChoice::Suppress)
    } else {
        None
    }
}

/// Where the denials cannot be silenced, no answer silences them.
pub proof fn law_no_unasked_suppression(t: Seq<char>)
    ensures
        choice_of(t, false) != Some(ProfileSaveChoice::Suppress),
{
}

pub open spec fn choice_question(existing: Option<Seq<char>>, can_suppress: bool) -> Seq<char> {
    match (existing, can_suppress) {
        (Some(name), true) => "Update user profile '"@ + name
            + "' with suggestions? [g] grant / [s] suppress / [Enter] skip: "@,
        (Some(name), false) => "Update existing user profile '"@ + name
            + "' with the shown rules? [g] save / [Enter] skip: "@,
        (None, true) => {
            "Save suggestions to a user profile? [g] grant / [s] suppress / [Enter] skip: "@
        },
        (None, false) => "Save the shown rules in a user profile? [g] save / [Enter] skip: "@,
    }
}

/// The question what to do with the suggestions.
pub fn profile_save_question(existing: &Option<String>, can_suppress: bool) -> (r: String)
    ensures
        r@ == choice_question(opt_view(*existing), can_suppress),
{
    match (existing, can_suppress) {
        (Some(name), true) => concat3(
            "Update user profile '",
            name.as_str(),
            "' with suggestions? [g] grant / [s] suppress / [Enter] skip: ",
        ),
        (Some(name), false) => concat3(
            "Update existing user profile '",
            name.as_str(),
            "' with the shown rules? [g] save / [Enter] skip: ",
        ),
        (None, true) => copy_str(
            "Save suggestions to a user profile? [g] grant / [s] suppress / [Enter] skip: ",
        ),
        (None, false) => copy_str(
            "Save the shown rules in a user profile? [g] save / [Enter] skip: ",
        ),
    }
}

/// What is said after an answer that means nothing.
pub fn profile_save_help(can_suppress: bool) -> (r: &'static str)
    ensures
        r@ == if can_suppress {
            "Enter g to grant, s to suppress, or press Enter to skip."@
        } else {
            "Enter g to save, or press Enter to skip."@
        },
{
    if can_suppress {
        "Enter g to grant, s to suppress, or press Enter to skip."
    } else {
        "Enter g to save, or press Enter to skip."
    }
}

/// Which patch is saved.
#[derive(Clone, Copy, Debug, PartialEq, Eq, Structural)]
pub enum SelectedPatch {
    Grant,
    /// The patch with the grants, once the user has confirmed that rules are overridden.
    GrantIfConfirmed,
    Suppress,
    Nothing,
}

pub fn selected_profile_save_patch(
    choice: ProfileSaveChoice,
    has_suppression: bool,
    has_overrides: bool,
) -> (r: SelectedPatch)
    ensures
        r == match choice {
            ProfileSaveChoice::Grant => if has_overrides {
                SelectedPatch::GrantIfConfirmed
            } else {
                SelectedPatch::Grant
            },
            ProfileSaveChoice::Suppress => if has_suppression {
                SelectedPatch::Suppress
            } else {
                SelectedPatch::Nothing
            },
            ProfileSaveChoice::Skip => SelectedPatch::Nothing,
        },
{
    match choice {
        ProfileSaveChoice::Grant => if has_overrides {
            SelectedPatch::GrantIfConfirmed
        } else {
            SelectedPatch::Grant
        },
        ProfileSaveChoice::Suppress => if has_suppression {
            SelectedPatch::Suppress
        } else {
            SelectedPatch::Nothing
        },
        ProfileSaveChoice::Skip => SelectedPatch::Nothing,
    }
}

/// Reads the answer to a question with yes and no; an empty one takes the default.
pub fn confirm(input: &str, default_yes: bool) -> (r: bool)
    ensures
        r == if trim(input@).len() == 0 {
            default_yes
        } else {
            lower(trim(input@)) == lower("y"@) || lower(trim(input@)) == lower("yes"@)
        },
{
    let t = str_trim(input);
    if t.as_str().is_empty() {
        return default_yes;
    }
    str_eq_ignore_case(t.as_str(), "y") || str_eq_ignore_case(t.as_str(), "yes")
}

/// Whether the user typed a word, in any case.
pub fn confirm_typed_word(input: &str, expected: &str) -> (r: bool)
    ensures
        r == (lower(trim(input@)) == lower(expected@)),
{
    let t = str_trim(input);
    str_eq_ignore_case(t.as_str(), expected)
}

// ---------------------------------------------------------------------------
// Names
// ---------------------------------------------------------------------------

pub open spec fn name_question(suggested: Option<Seq<char>>, first: bool) -> Seq<char> {
    match (suggested, first) {
        (Some(s), true) => "User profile name ["@ + s + "]: "@,
        (None, true) => "User profile name: "@,
        (Some(s), false) => "Enter a name ["@ + s + "]: "@,
        (None, false) => "Enter a name: "@,
    }
}

/// The question for the name of a profile; another one after an answer that will not do.
pub fn profile_name_question(suggested: &Option<String>, first: bool) -> (r: String)
    ensures
        r@ == name_question(opt_view(*suggested), first),
{
    match (suggested, first) {
        (Some(s), true) => concat3("User profile name [", s.as_str(), "]: "),
        (None, true) => copy_str("User profile name: "),
        (Some(s), false) => concat3("Enter a name [", s.as_str(), "]: "),
        (None, false) => copy_str("Enter a name: "),
    }
}

/// What an answer to that question means.
#[derive(Debug)]
pub enum NameAnswer {
    /// The suggestion is taken.
    Accept(String),
    Skip,
    /// The answer will not do; what to say.
    Again(String),
    /// The name will do unless it hides a built-in profile.
    Candidate(String),
}

pub enum NameAnswerView {
    Accept(Seq<char>),
    Skip,
    Again(Seq<char>),
    Candidate(Seq<char>),
}

impl View for NameAnswer {
    type V = NameAnswerView;

    open spec fn view(&self) -> NameAnswerView {
        match self {
            NameAnswer::Accept(s) => NameAnswerView::Accept(s@),
            NameAnswer::Skip => NameAnswerView::Skip,
            NameAnswer::Again(s) => NameAnswerView::Again(s@),
            NameAnswer::Candidate(s) => NameAnswerView::Candidate(s@),
        }
    }
}

pub open spec fn name_answer(input: Seq<char>, suggested: Option<Seq<char>>) -> NameAnswerView {
    let t = trim(input);
    if t.len() == 0 {
        match suggested {
            Some(s) => NameAnswerView::Accept(s),
            None => NameAnswerView::Again(
                "Profile name required. Type a name, or type 'skip' to cancel."@,
            ),
        }
    } else if lower(t) == lower("skip"@) {
        NameAnswerView::Skip
    } else if !valid_profile_name(t) {
        NameAnswerView::Again(
            "Invalid profile name. Use only letters, numbers, and hyphens."@,
        )
    } else {
        NameAnswerView::Candidate(t)
    }
}

/// Reads an answer to the question for a name.
pub fn parse_profile_name(input: &str, suggested: &Option<String>) -> (r: NameAnswer)
    ensures
        r@ == name_answer(input@, opt_view(*suggested)),
{
    let t = str_trim(input);
    if t.as_str().is_empty() {
        return match suggested {
            Some(s) => NameAnswer::Accept(copy_str(s.as_str())),
            None => NameAnswer::Again(
                copy_str("Profile name required. Type a name, or type 'skip' to cancel."),
            ),
        };
    }
    if str_eq_ignore_case(t.as_str(), "skip") {
        return NameAnswer::Skip;
    }
    if !is_valid_profile_name(t.as_str()) {
        return NameAnswer::Again(
            copy_str("Invalid profile name. Use only letters, numbers, and hyphens."),
        );
    }
    NameAnswer::Candidate(t)
}

/// What is said of a name that would hide a built-in profile.
pub fn shadowing_message(candidate: &str) -> (r: String)
    ensures
        r@ == "Cannot save '"@ + candidate@
            + "' as a user profile because it would shadow the built-in profile of the same name. Choose a different name."@,
{
    concat3(
        "Cannot save '",
        candidate,
        "' as a user profile because it would shadow the built-in profile of the same name. Choose a different name.",
    )
}

/// Saving under a name would hide a built-in profile. Where the built-in profiles are not known,
/// it is taken that it would.
pub open spec fn shadows(name: Seq<char>, user_override: bool, builtin: Option<Seq<Seq<char>>>) -> bool {
    !user_override && match builtin {
        Some(names) => names.contains(name),
        None => true,
    }
}

pub open spec fn names_of(builtin: Option<Vec<String>>) -> Option<Seq<Seq<char>>> {
    match builtin {
        Some(v) => Some(views(v@)),
        None => None,
    }
}

/// Whether saving under a name would hide a built-in profile. Under a name that the user has a
/// profile of already, saving is an update.
pub fn would_shadow_builtin(name: &str, user_override: bool, builtin: &Option<Vec<String>>) -> (r: bool)
    ensures
        r == shadows(name@, user_override, names_of(*builtin)),
{
    !user_override && match builtin {
        Some(names) => contains_str(names, name),
        None => true,
    }
}

/// The name of a command: the last part of its path.
pub fn command_name(command: &Vec<String>) -> (r: Result<String, NonoError>)
    ensures
        match r {
            Ok(n) => command@.len() > 0 && file_name(command@[0]@) == Some(n@),
            Err(e) => {
                &&& command@.len() == 0 || file_name(command@[0]@) is None
                &&& e@ == ErrorView::LearnError("Cannot derive profile name from command"@)
            },
        },
{
    if command.len() > 0 {
        if let Some(n) = path_file_name(command[0].as_str()) {
            return Ok(n);
        }
    }
    Err(NonoError::LearnError(copy_str("Cannot derive profile name from command")))
}

pub open spec fn local_name(compared: Option<Seq<char>>, user_override: bool) -> Option<Seq<char>> {
    match compared {
        Some(name) => if valid_profile_name(name) && !user_override {
            Some(name + "-local"@)
        } else {
            None
        },
        None => None,
    }
}

/// A name for additions to a profile that is not the user's own.
pub fn suggested_profile_name(compared: &Option<String>, user_override: bool) -> (r: Option<String>)
    ensures
        opt_view(r) == local_name(opt_view(*compared), user_override),
{
    match compared {
        Some(name) => if is_valid_profile_name(name.as_str()) && !user_override {
            Some(concat2(name.as_str(), "-local"))
        } else {
            None
        },
        None => None,
    }
}

/// A name so far, with one more character of a command.
pub open spec fn slug_step(out: Seq<char>, c: char) -> Seq<char> {
    if is_alnum(c) {
        out.push(lower_char(c))
    } else if c == '-' || c == '_' || c == '.' {
        if out.len() == 0 || out.last() == '-' {
            out
        } else {
            out.push('-')
        }
    } else {
        out
    }
}

/// A command in small letters and digits, with single hyphens for what separates its parts.
pub open spec fn slug(s: Seq<char>) -> Seq<char>
    decreases s.len(),
{
    if s.len() == 0 {
        Seq::empty()
    } else {
        slug_step(slug(s.drop_last()), s.last())
    }
}

pub open spec fn without_hyphens_at_end(s: Seq<char>) -> Seq<char>
    decreases s.len(),
{
    if s.len() > 0 && s.last() == '-' {
        without_hyphens_at_end(s.drop_last())
    } else {
        s
    }
}

pub open spec fn command_slug(command: Seq<char>) -> Option<Seq<char>> {
    let s = without_hyphens_at_end(slug(command));
    if valid_profile_name(s) {
        Some(s)
    } else {
        None
    }
}

/// A name for a profile after a command.
pub fn profile_name_from_command(command: &str) -> (r: Option<String>)
    ensures
        opt_view(r) == command_slug(command@),
{
    let v = chars_of(command);
    let mut out: Vec<char> = Vec::new();
    let mut i: usize = 0;
    assert(out@ =~= slug(v@.take(0)));
    while i < v.len()
        invariant
            i <= v@.len(),
            v@ == command@,
            out@ == slug(v@.take(i as int)),
        decreases v@.len() - i,
    {
        proof {
            assert(v@.take(i + 1).drop_last() =~= v@.take(i as int));
            assert(v@.take(i + 1).last() == v@[i as int]);
        }
        let c = v[i];
        if char_is_alnum(c) {
            out.push(char_to_lower(c));
        } else if c == '-' || c == '_' || c == '.' {
            if out.len() > 0 && out[out.len() - 1] != '-' {
                out.push('-');
            }
        }
        i += 1;
    }
    assert(v@.take(i as int) =~= v@);
    let ghost whole = out@;
    while out.len() > 0 && out[out.len() - 1] == '-'
        invariant
            without_hyphens_at_end(out@) == without_hyphens_at_end(whole),
        decreases out@.len(),
    {
        out.pop();
    }
    let name = from_chars(&out);
    if is_valid_profile_name(name.as_str()) {
        Some(name)
    } else {
        None
    }
}

/// Everything but a command without letters and digits gives a name.
pub proof fn law_commands_give_names(command: Seq<char>)
    ensures
        command_slug(command) is Some <==> exists|i: int|
            0 <= i < command.len() && is_alnum(#[trigger] command[i]),
{
    lemma_slug(command);
    let s = slug(command);
    let t = without_hyphens_at_end(s);
    lemma_without_hyphens(s);
    if exists|i: int| 0 <= i < command.len() && is_alnum(#[trigger] command[i]) {
        assert(s.len() > 0 && s[0] != '-');
        assert(t.len() > 0);
        assert forall|i: int| 0 <= i < t.len() implies is_alnum(#[trigger] t[i]) || t[i] == '-' by {
            assert(t[i] == s[i]);
        }
        assert(t[0] == s[0]);
    }
}

proof fn lemma_slug(s: Seq<char>)
    ensures
        slug(s).len() > 0 <==> exists|i: int| 0 <= i < s.len() && is_alnum(#[trigger] s[i]),
        slug(s).len() > 0 ==> slug(s)[0] != '-',
        forall|i: int| 0 <= i < slug(s).len() ==> is_alnum(#[trigger] slug(s)[i]) || slug(s)[i] == '-',
    decreases s.len(),
{
    if s.len() > 0 {
        let front = s.drop_last();
        lemma_slug(front);
        if slug(front).len() > 0 {
            let i = choose|i: int| 0 <= i < front.len() && is_alnum(#[trigger] front[i]);
            assert(is_alnum(s[i]));
        } else if is_alnum(s.last()) {
            assert(is_alnum(s[s.len() - 1]));
        } else {
            assert forall|i: int| 0 <= i < s.len() implies !is_alnum(#[trigger] s[i]) by {
                if i < front.len() {
                    assert(!is_alnum(front[i]));
                }
            }
        }
    }
}

proof fn lemma_without_hyphens(s: Seq<char>)
    ensures
        ({
            let t = without_hyphens_at_end(s);
            &&& t.len() <= s.len()
            &&& t =~= s.take(t.len() as int)
            &&& t.len() > 0 ==> t.last() != '-'
            &&& s.len() > 0 && s[0] != '-' ==> t.len() > 0
        }),
    decreases s.len(),
{
    if s.len() > 0 && s.last() == '-' {
        lemma_without_hyphens(s.drop_last());
    }
}

/// The name to suggest: after the profile in use, or after the command unless that would hide a
/// built-in profile.
pub open spec fn suggested_name(
    compared: Option<Seq<char>>,
    compared_override: bool,
    command: Seq<char>,
    command_override: bool,
    builtin: Option<Seq<Seq<char>>>,
) -> Option<Seq<char>> {
    match local_name(compared, compared_override) {
        Some(n) => Some(n),
        None => match command_slug(command) {
            Some(n) => if shadows(n, command_override, builtin) {
                None
            } else {
                Some(n)
            },
            None => None,
        },
    }
}

/// Suggests a name. `compared_override` says whether the user has a profile of the name of the one
/// in use, and `command_override` the same of the name that the command gives.
pub fn suggested_run_profile_name(
    compared: &Option<String>,
    compared_override: bool,
    command: &str,
    command_override: bool,
    builtin: &Option<Vec<String>>,
) -> (r: Option<String>)
    ensures
        opt_view(r) == suggested_name(
            opt_view(*compared),
            compared_override,
            command@,
            command_override,
            names_of(*builtin),
        ),
{
    match suggested_profile_name(compared, compared_override) {
        Some(n) => Some(n),
        None => match profile_name_from_command(command) {
            Some(n) => if would_shadow_builtin(n.as_str(), command_override, builtin) {
                None
            } else {
                Some(n)
            },
            None => None,
        },
    }
}

/// What is suggested is a valid name.
pub proof fn law_suggestions_are_valid(
    compared: Option<Seq<char>>,
    compared_override: bool,
    command: Seq<char>,
    command_override: bool,
    builtin: Option<Seq<Seq<char>>>,
)
    ensures
        match suggested_name(compared, compared_override, command, command_override, builtin) {
            Some(n) => valid_profile_name(n),
            None => true,
        },
{
    if let Some(name) = compared {
        if valid_profile_name(name) && !compared_override {
            reveal_strlit("-local");
            let n = name + "-local"@;
            assert forall|i: int| 0 <= i < n.len() implies is_alnum(#[trigger] n[i]) || n[i]
                == '-' by {
                if i < name.len() {
                    assert(n[i] == name[i]);
                } else {
                    assert(n[i] == "-local"@[i - name.len()]);
                }
            }
            assert(n[0] == name[0]);
            assert(n.last() == 'l');
        }
    }
}

/// Whether an existing profile of the user is updated.
pub open spec fn updates_existing(compared: Option<Seq<char>>, user_override: bool) -> bool {
    compared is Some && valid_profile_name(compared->0) && user_override
}

pub fn is_update_of_existing(compared: &Option<String>, user_override: bool) -> (r: bool)
    ensures
        r == updates_existing(opt_view(*compared), user_override),
{
    match compared {
        Some(name) => is_valid_profile_name(name.as_str()) && user_override,
        None => false,
    }
}

} // verus!
