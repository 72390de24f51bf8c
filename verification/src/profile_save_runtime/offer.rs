//! The dialogue in which what a run was denied is saved to a profile, step by step.

use crate::error::{ErrorView, NonoError};
use crate::profile::Profile;
use crate::profile_save_runtime::patch::{
    build_suppress_save_prompt_patch, patch_has_policy_overrides, suggestions,
};
use crate::profile_save_runtime::prompts::{
    choice_of, choice_question, confirm_typed_word, is_update_of_existing, name_answer,
    name_question, names_of, parse_profile_name, parse_profile_save_choice, profile_name_question,
    profile_save_help, profile_save_question, selected_profile_save_patch, shadowing_message,
    shadows, suggested_name, suggested_run_profile_name, updates_existing, would_shadow_builtin,
    NameAnswer, NameAnswerView, ProfileSaveChoice, SelectedPatch,
};
use crate::text::{clone_opt_string, copy_str, lower, opt_view, trim};
use vstd::prelude::*;

verus! {

/// What of a patch the dialogue depends on: whether the denials can be silenced instead, and
/// whether it overrides rules.
#[derive(Clone, Copy, Debug, PartialEq, Eq, Structural)]
pub struct PatchTraits {
    pub has_suppression: bool,
    pub has_overrides: bool,
}

pub fn patch_traits(patch: &Profile) -> (r: PatchTraits)
    ensures
        r.has_suppression == (suggestions(*patch).len() > 0),
        r.has_overrides == (patch.filesystem.bypass_protection@.len() > 0
            || patch.unsafe_macos_seatbelt_rules@.len() > 0),
{
    PatchTraits {
        has_suppression: build_suppress_save_prompt_patch(patch).is_some(),
        has_overrides: patch_has_policy_overrides(patch),
    }
}

/// What is waited for.
#[derive(Clone, Copy, Debug, PartialEq, Eq, Structural)]
pub enum SaveStage {
    /// What the run came to.
    Begin,
    /// What to do with the suggestions.
    Choice,
    /// The word that confirms overrides.
    Word,
    /// A name for the profile.
    Name,
    /// Whether the user has a profile of that name.
    LookUp,
    /// The outcome of writing the profile.
    Write,
    Done,
}

/// How far the dialogue has come. The profile in use may be one of the user's own, which is then
/// updated; the name that the command gives may be that of one.
#[derive(Debug)]
pub struct SaveOffer {
    pub stage: SaveStage,
    pub compared: Option<String>,
    pub compared_override: bool,
    pub command_override: bool,
    pub builtin: Option<Vec<String>>,
    pub has_suppression: bool,
    pub has_overrides: bool,
    pub suggested: Option<String>,
    /// The denials are silenced, not lifted.
    pub suppressing: bool,
    /// The user typed the word.
    pub confirmed: bool,
    pub candidate: String,
}

#[verifier::ext_equal]
pub struct SaveView {
    pub stage: SaveStage,
    pub compared: Option<Seq<char>>,
    pub compared_override: bool,
    pub command_override: bool,
    pub builtin: Option<Seq<Seq<char>>>,
    pub has_suppression: bool,
    pub has_overrides: bool,
    pub suggested: Option<Seq<char>>,
    pub suppressing: bool,
    pub confirmed: bool,
    pub candidate: Seq<char>,
}

impl View for SaveOffer {
    type V = SaveView;

    open spec fn view(&self) -> SaveView {
        SaveView {
            stage: self.stage,
            compared: opt_view(self.compared),
            compared_override: self.compared_override,
            command_override: self.command_override,
            builtin: names_of(self.builtin),
            has_suppression: self.has_suppression,
            has_overrides: self.has_overrides,
            suggested: opt_view(self.suggested),
            suppressing: self.suppressing,
            confirmed: self.confirmed,
            candidate: self.candidate@,
        }
    }
}

/// What happened.
#[derive(Debug)]
pub enum SaveEvent {
    /// The run is over: whether the user can be asked, what would be saved, and the command's name.
    Begin {
        can_ask: bool,
        patch: Result<Option<PatchTraits>, NonoError>,
        command: Result<String, NonoError>,
    },
    /// The user answered.
    Line(Result<String, NonoError>),
    /// Whether the user has a profile of the name that was looked up.
    Looked { user_override: bool },
    /// The profile was written.
    Written(Result<(), NonoError>),
}

/// What to do next.
#[derive(Debug)]
pub enum SaveDo {
    /// The dialogue is over.
    Finish(Result<(), NonoError>),
    /// Show what would be saved, then ask.
    Preview { question: String },
    /// Say this, then ask again.
    AskChoice { help: String, question: String },
    /// Ask for the word that confirms overrides.
    AskWord { question: String },
    /// Say something, if there is anything to say, then ask for a name.
    AskName { message: Option<String>, question: String },
    /// Look whether the user has a profile of this name.
    LookUp(String),
    /// Write the profile: the patch that silences, or the one that grants.
    Save { suppress: bool, name: String },
    /// Say that it was saved, with the note on silenced denials where they are.
    Report { note: bool },
}

pub enum DoView {
    Finish(Result<(), ErrorView>),
    Preview { question: Seq<char> },
    AskChoice { help: Seq<char>, question: Seq<char> },
    AskWord { question: Seq<char> },
    AskName { message: Option<Seq<char>>, question: Seq<char> },
    LookUp(Seq<char>),
    Save { suppress: bool, name: Seq<char> },
    Report { note: bool },
}

impl View for SaveDo {
    type V = DoView;

    open spec fn view(&self) -> DoView {
        match self {
            SaveDo::Finish(Ok(())) => DoView::Finish(Ok(())),
            SaveDo::Finish(Err(e)) => DoView::Finish(Err(e@)),
            SaveDo::Preview { question } => DoView::Preview { question: question@ },
            SaveDo::AskChoice { help, question } => DoView::AskChoice {
                help: help@,
                question: question@,
            },
            SaveDo::AskWord { question } => DoView::AskWord { question: question@ },
            SaveDo::AskName { message, question } => DoView::AskName {
                message: opt_view(*message),
                question: question@,
            },
            SaveDo::LookUp(name) => DoView::LookUp(name@),
            SaveDo::Save { suppress, name } => DoView::Save { suppress: *suppress, name: name@ },
            SaveDo::Report { note } => DoView::Report { note: *note },
        }
    }
}

pub open spec fn help_text(can_suppress: bool) -> Seq<char> {
    if can_suppress {
        "Enter g to grant, s to suppress, or press Enter to skip."@
    } else {
        "Enter g to save, or press Enter to skip."@
    }
}

pub open spec fn shadowing_text(candidate: Seq<char>) -> Seq<char> {
    "Cannot save '"@ + candidate
        + "' as a user profile because it would shadow the built-in profile of the same name. Choose a different name."@
}

pub open spec fn word_question() -> Seq<char> {
    "Granting the shown entries includes policy overrides. Type 'override' to confirm: "@
}

impl SaveView {
    pub open spec fn at(self, stage: SaveStage) -> SaveView {
        SaveView { stage, ..self }
    }

    /// Nothing more is done.
    pub open spec fn finished(self) -> (SaveView, DoView) {
        (self.at(SaveStage::Done), DoView::Finish(Ok(())))
    }

    pub open spec fn failed(self, e: ErrorView) -> (SaveView, DoView) {
        (self.at(SaveStage::Done), DoView::Finish(Err(e)))
    }

    /// The user's own profile that is updated, where the one in use is that.
    pub open spec fn existing(self) -> Option<Seq<char>> {
        if updates_existing(self.compared, self.compared_override) {
            self.compared
        } else {
            None
        }
    }

    /// The run is over.
    pub open spec fn begun(self, traits: PatchTraits, command: Seq<char>) -> (SaveView, DoView) {
        let st = SaveView {
            stage: SaveStage::Choice,
            has_suppression: traits.has_suppression,
            has_overrides: traits.has_overrides,
            suggested: suggested_name(
                self.compared,
                self.compared_override,
                command,
                self.command_override,
                self.builtin,
            ),
            suppressing: false,
            confirmed: false,
            ..self
        };
        (
            st,
            DoView::Preview { question: choice_question(st.existing(), traits.has_suppression) },
        )
    }

    /// A patch was selected: it goes to the user's own profile, or a name is asked for.
    pub open spec fn selected(self, suppressing: bool) -> (SaveView, DoView) {
        let st = SaveView { suppressing, ..self };
        match self.existing() {
            Some(name) => (
                st.at(SaveStage::Write),
                DoView::Save { suppress: suppressing, name },
            ),
            None => (
                st.at(SaveStage::Name),
                DoView::AskName { message: None, question: name_question(self.suggested, true) },
            ),
        }
    }

    pub open spec fn chosen(self, answer: Seq<char>) -> (SaveView, DoView) {
        match choice_of(lower(trim(answer)), self.has_suppression) {
            None => (
                self,
                DoView::AskChoice {
                    help: help_text(self.has_suppression),
                    question: choice_question(self.existing(), self.has_suppression),
                },
            ),
            Some(ProfileSaveChoice::Skip) => self.finished(),
            Some(ProfileSaveChoice::Suppress) => self.selected(true),
            Some(ProfileSaveChoice::Grant) => if self.has_overrides {
                (self.at(SaveStage::Word), DoView::AskWord { question: word_question() })
            } else {
                self.selected(false)
            },
        }
    }

    pub open spec fn worded(self, answer: Seq<char>) -> (SaveView, DoView) {
        if lower(trim(answer)) == lower("override"@) {
            SaveView { confirmed: true, ..self }.selected(false)
        } else {
            self.finished()
        }
    }

    pub open spec fn named(self, answer: Seq<char>) -> (SaveView, DoView) {
        match name_answer(answer, self.suggested) {
            NameAnswerView::Accept(name) => (
                self.at(SaveStage::Write),
                DoView::Save { suppress: self.suppressing, name },
            ),
            NameAnswerView::Skip => self.finished(),
            NameAnswerView::Again(message) => (
                self,
                DoView::AskName {
                    message: Some(message),
                    question: name_question(self.suggested, false),
                },
            ),
            NameAnswerView::Candidate(name) => (
                SaveView { stage: SaveStage::LookUp, candidate: name, ..self },
                DoView::LookUp(name),
            ),
        }
    }

    pub open spec fn looked(self, user_override: bool) -> (SaveView, DoView) {
        if shadows(self.candidate, user_override, self.builtin) {
            (
                self.at(SaveStage::Name),
                DoView::AskName {
                    message: Some(shadowing_text(self.candidate)),
                    question: name_question(self.suggested, false),
                },
            )
        } else {
            (
                self.at(SaveStage::Write),
                DoView::Save { suppress: self.suppressing, name: self.candidate },
            )
        }
    }
}

/// One step of the dialogue. An event that is not waited for ends it.
pub open spec fn save_step(st: SaveView, event: SaveEvent) -> (SaveView, DoView) {
    match (st.stage, event) {
        (SaveStage::Begin, SaveEvent::Begin { can_ask, patch, command }) => if !can_ask {
            st.finished()
        } else {
            match patch {
                Err(e) => st.failed(e@),
                Ok(None) => st.finished(),
                Ok(Some(traits)) => match command {
                    Err(e) => st.failed(e@),
                    Ok(name) => st.begun(traits, name@),
                },
            }
        },
        (SaveStage::Choice, SaveEvent::Line(Ok(answer))) => st.chosen(answer@),
        (SaveStage::Word, SaveEvent::Line(Ok(answer))) => st.worded(answer@),
        (SaveStage::Name, SaveEvent::Line(Ok(answer))) => st.named(answer@),
        (SaveStage::Choice, SaveEvent::Line(Err(e))) => st.failed(e@),
        (SaveStage::Word, SaveEvent::Line(Err(e))) => st.failed(e@),
        (SaveStage::Name, SaveEvent::Line(Err(e))) => st.failed(e@),
        (SaveStage::LookUp, SaveEvent::Looked { user_override }) => st.looked(user_override),
        (SaveStage::Write, SaveEvent::Written(Ok(()))) => (
            st.at(SaveStage::Done),
            DoView::Report { note: st.suppressing },
        ),
        (SaveStage::Write, SaveEvent::Written(Err(e))) => st.failed(e@),
        _ => st.finished(),
    }
}

impl SaveOffer {
    /// A dialogue that has not begun.
    pub fn new(
        compared: Option<String>,
        compared_override: bool,
        command_override: bool,
        builtin: Option<Vec<String>>,
    ) -> (r: Self)
        ensures
            r@ == (SaveView {
                stage: SaveStage::Begin,
                compared: opt_view(compared),
                compared_override,
                command_override,
                builtin: names_of(builtin),
                has_suppression: false,
                has_overrides: false,
                suggested: None,
                suppressing: false,
                confirmed: false,
                candidate: ""@,
            }),
    {
        SaveOffer {
            stage: SaveStage::Begin,
            compared,
            compared_override,
            command_override,
            builtin,
            has_suppression: false,
            has_overrides: false,
            suggested: None,
            suppressing: false,
            confirmed: false,
            candidate: copy_str(""),
        }
    }

    fn finish(&mut self, outcome: Result<(), NonoError>) -> (r: SaveDo)
        ensures
            final(self)@ == old(self)@.at(SaveStage::Done),
            r == SaveDo::Finish(outcome),
    {
        self.stage = SaveStage::Done;
        SaveDo::Finish(outcome)
    }

    fn existing_profile(&self) -> (r: Option<String>)
        ensures
            opt_view(r) == self@.existing(),
    {
        if is_update_of_existing(&self.compared, self.compared_override) {
            clone_opt_string(&self.compared)
        } else {
            None
        }
    }

    fn begin(&mut self, traits: PatchTraits, command: &str) -> (r: SaveDo)
        ensures
            (final(self)@, r@) == old(self)@.begun(traits, command@),
    {
        self.suggested = suggested_run_profile_name(
            &self.compared,
            self.compared_override,
            command,
            self.command_override,
            &self.builtin,
        );
        self.stage = SaveStage::Choice;
        self.has_suppression = traits.has_suppression;
        self.has_overrides = traits.has_overrides;
        self.suppressing = false;
        self.confirmed = false;
        let existing = self.existing_profile();
        SaveDo::Preview { question: profile_save_question(&existing, traits.has_suppression) }
    }

    fn select(&mut self, suppressing: bool) -> (r: SaveDo)
        ensures
            (final(self)@, r@) == old(self)@.selected(suppressing),
    {
        self.suppressing = suppressing;
        match self.existing_profile() {
            Some(name) => {
                self.stage = SaveStage::Write;
                SaveDo::Save { suppress: suppressing, name }
            },
            None => {
                self.stage = SaveStage::Name;
                SaveDo::AskName {
                    message: None,
                    question: profile_name_question(&self.suggested, true),
                }
            },
        }
    }

    fn choose_patch(&mut self, answer: &str) -> (r: SaveDo)
        ensures
            (final(self)@, r@) == old(self)@.chosen(answer@),
    {
        let choice = match parse_profile_save_choice(answer, self.has_suppression) {
            Some(c) => c,
            None => {
                let existing = self.existing_profile();
                return SaveDo::AskChoice {
                    help: copy_str(profile_save_help(self.has_suppression)),
                    question: profile_save_question(&existing, self.has_suppression),
                };
            },
        };
        match selected_profile_save_patch(choice, self.has_suppression, self.has_overrides) {
            SelectedPatch::Grant => self.select(false),
            SelectedPatch::Suppress => self.select(true),
            SelectedPatch::GrantIfConfirmed => {
                self.stage = SaveStage::Word;
                SaveDo::AskWord {
                    question: copy_str(
                        "Granting the shown entries includes policy overrides. Type 'override' to confirm: ",
                    ),
                }
            },
            SelectedPatch::Nothing => self.finish(Ok(())),
        }
    }

    fn take_word(&mut self, answer: &str) -> (r: SaveDo)
        ensures
            (final(self)@, r@) == old(self)@.worded(answer@),
    {
        if confirm_typed_word(answer, "override") {
            self.confirmed = true;
            self.select(false)
        } else {
            self.finish(Ok(()))
        }
    }

    fn take_name(&mut self, answer: &str) -> (r: SaveDo)
        ensures
            (final(self)@, r@) == old(self)@.named(answer@),
    {
        match parse_profile_name(answer, &self.suggested) {
            NameAnswer::Accept(name) => {
                self.stage = SaveStage::Write;
                SaveDo::Save { suppress: self.suppressing, name }
            },
            NameAnswer::Skip => self.finish(Ok(())),
            NameAnswer::Again(message) => SaveDo::AskName {
                message: Some(message),
                question: profile_name_question(&self.suggested, false),
            },
            NameAnswer::Candidate(name) => {
                self.stage = SaveStage::LookUp;
                self.candidate = copy_str(name.as_str());
                SaveDo::LookUp(name)
            },
        }
    }

    fn take_look(&mut self, user_override: bool) -> (r: SaveDo)
        ensures
            (final(self)@, r@) == old(self)@.looked(user_override),
    {
        if would_shadow_builtin(self.candidate.as_str(), user_override, &self.builtin) {
            self.stage = SaveStage::Name;
            SaveDo::AskName {
                message: Some(shadowing_message(self.candidate.as_str())),
                question: profile_name_question(&self.suggested, false),
            }
        } else {
            self.stage = SaveStage::Write;
            SaveDo::Save { suppress: self.suppressing, name: copy_str(self.candidate.as_str()) }
        }
    }
}

/// What to do after an event: the patch is built, shown, and what to do with it asked; a word is
/// typed where it overrides rules; a name is asked for unless the user's own profile is updated;
/// the profile is written, and that is reported.
pub fn offer_save_step(st: SaveOffer, event: SaveEvent) -> (r: (SaveOffer, SaveDo))
    ensures
        (r.0@, r.1@) == save_step(st@, event),
{
    let mut st = st;
    let next = match (st.stage, event) {
        (SaveStage::Begin, SaveEvent::Begin { can_ask, patch, command }) => if !can_ask {
            st.finish(Ok(()))
        } else {
            match patch {
                Err(e) => st.finish(Err(e)),
                Ok(None) => st.finish(Ok(())),
                Ok(Some(traits)) => match command {
                    Err(e) => st.finish(Err(e)),
                    Ok(name) => st.begin(traits, name.as_str()),
                },
            }
        },
        (SaveStage::Choice, SaveEvent::Line(Ok(answer))) => st.choose_patch(answer.as_str()),
        (SaveStage::Word, SaveEvent::Line(Ok(answer))) => st.take_word(answer.as_str()),
        (SaveStage::Name, SaveEvent::Line(Ok(answer))) => st.take_name(answer.as_str()),
        (SaveStage::Choice, SaveEvent::Line(Err(e))) => st.finish(Err(e)),
        (SaveStage::Word, SaveEvent::Line(Err(e))) => st.finish(Err(e)),
        (SaveStage::Name, SaveEvent::Line(Err(e))) => st.finish(Err(e)),
        (SaveStage::LookUp, SaveEvent::Looked { user_override }) => st.take_look(user_override),
        (SaveStage::Write, SaveEvent::Written(Ok(()))) => {
            st.stage = SaveStage::Done;
            SaveDo::Report { note: st.suppressing }
        },
        (SaveStage::Write, SaveEvent::Written(Err(e))) => st.finish(Err(e)),
        _ => st.finish(Ok(())),
    };
    (st, next)
}

impl SaveView {
    /// Once grants that override rules are selected, the word was typed.
    pub open spec fn sound(self) -> bool {
        &&& self.has_overrides && !self.suppressing && (self.stage == SaveStage::Name || self.stage
            == SaveStage::LookUp || self.stage == SaveStage::Write) ==> self.confirmed
        &&& self.suppressing && (self.stage == SaveStage::Name || self.stage == SaveStage::LookUp
            || self.stage == SaveStage::Write) ==> self.has_suppression
    }
}

/// Grants that override rules are written only after the user typed the word, whatever is
/// answered otherwise; and denials are silenced only where they can be.
pub proof fn law_overrides_are_confirmed(st: SaveView, event: SaveEvent)
    requires
        st.sound(),
    ensures
        ({
            let (next, action) = save_step(st, event);
            &&& next.sound()
            &&& action matches DoView::Save { suppress, .. } ==> {
                &&& suppress == next.suppressing
                &&& next.has_overrides && !suppress ==> next.confirmed
                &&& suppress ==> next.has_suppression
            }
            &&& next.confirmed && !st.confirmed ==> {
                &&& st.stage == SaveStage::Word
                &&& event matches SaveEvent::Line(Ok(answer)) && lower(trim(answer@)) == lower(
                    "override"@,
                )
            }
        }),
{
}

/// Nothing is written where the user cannot be asked, or skips.
pub proof fn law_nothing_is_saved_unasked(st: SaveView, event: SaveEvent)
    requires
        st.stage == SaveStage::Begin || st.stage == SaveStage::Done,
    ensures
        !(save_step(st, event).1 is Save),
        event matches SaveEvent::Begin { can_ask: false, .. } ==> save_step(st, event).1
            == DoView::Finish(Ok::<(), ErrorView>(())),
{
}

} // verus!
