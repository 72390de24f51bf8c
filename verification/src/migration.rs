//! Offering to install the pack that provides a profile.

pub mod laws;

use crate::error::NonoError;
use crate::package::{slashed, ProfileProvider};
use crate::report::{blank_line, LineView, Report, Style};
use crate::text::{
    chars_of, clone_opt_string, concat2, concat3, concat5, contains_char, copy_str, has_suffix, lower, opt_view, pad_right,
    padded, str_ends_with, str_eq, str_lower, str_trim, trim,
};
use vstd::prelude::*;

verus! {

/// Where the model of packs is explained.
pub const LEARN_MORE_URL: &'static str = "https://github.com/always-further/nono/discussions/780";

/// The namespace of the packs that are maintained with the program.
pub const OFFICIAL_NAMESPACE: &'static str = "always-further";

/// The agent whose pack is maintained with the program beside that for Codex: the name of its
/// pack and profile, and that of the product.
#[derive(Debug)]
pub struct AgentNames {
    pub pack: String,
    pub product: String,
}

/// A pack that is maintained with the program, for the name of a profile. A pack has a row for each
/// name, old or new, under which its profile is asked for.
#[derive(Debug)]
pub struct OfficialPack {
    pub profile_name: String,
    pub namespace: String,
    pub pack_name: String,
    pub description: Option<String>,
    pub installs_summary: Option<String>,
}

/// A provider with its texts as sequences.
pub struct ProviderView {
    pub namespace: Seq<char>,
    pub name: Seq<char>,
    pub description: Option<Seq<char>>,
    pub installs_summary: Option<Seq<char>>,
}

pub open spec fn provider_view(p: ProfileProvider) -> ProviderView {
    ProviderView {
        namespace: p.namespace@,
        name: p.name@,
        description: opt_view(p.description),
        installs_summary: opt_view(p.installs_summary),
    }
}

impl OfficialPack {
    pub open spec fn provider(self) -> ProviderView {
        ProviderView {
            namespace: self.namespace@,
            name: self.pack_name@,
            description: opt_view(self.description),
            installs_summary: opt_view(self.installs_summary),
        }
    }

    pub fn as_provider(&self) -> (r: ProfileProvider)
        ensures
            provider_view(r) == self.provider(),
    {
        ProfileProvider {
            namespace: copy_str(self.namespace.as_str()),
            name: copy_str(self.pack_name.as_str()),
            description: clone_opt_string(&self.description),
            installs_summary: clone_opt_string(&self.installs_summary),
        }
    }
}

/// A row of the table: the name of the profile, and the pack that provides it.
pub struct OfficialRow {
    pub profile_name: Seq<char>,
    pub provider: ProviderView,
}

pub open spec fn official_rows(packs: Seq<OfficialPack>) -> Seq<OfficialRow> {
    packs.map_values(
        |p: OfficialPack| OfficialRow { profile_name: p.profile_name@, provider: p.provider() },
    )
}

pub open spec fn official_row(
    profile_name: Seq<char>,
    pack: Seq<char>,
    description: Seq<char>,
    installs: Seq<char>,
) -> OfficialRow {
    OfficialRow {
        profile_name,
        provider: ProviderView {
            namespace: OFFICIAL_NAMESPACE@,
            name: pack,
            description: Some(description),
            installs_summary: Some(installs),
        },
    }
}

/// The table: the agent's profile under its name and under the one it had before, and Codex.
pub open spec fn known_rows(pack: Seq<char>, product: Seq<char>) -> Seq<OfficialRow> {
    let installs = "sandbox profile + "@ + product + " plugin (hooks, skill)"@;
    seq![
        official_row(
            pack,
            pack,
            "Anthropic "@ + product + " sandbox profile + plugin"@,
            installs,
        ),
        official_row(
            pack + "-code"@,
            pack,
            "Anthropic "@ + product + " (legacy profile name; canonical is `"@ + pack + "`)"@,
            installs,
        ),
        official_row(
            "codex"@,
            "codex"@,
            "OpenAI Codex CLI sandbox profile + plugin"@,
            "sandbox profile + Codex plugin (hooks, skill)"@,
        ),
    ]
}

fn official_pack(profile_name: &str, pack: &str, description: &str, installs: &str) -> (r: OfficialPack)
    ensures
        (OfficialRow { profile_name: r.profile_name@, provider: r.provider() }) == official_row(
            profile_name@,
            pack@,
            description@,
            installs@,
        ),
{
    OfficialPack {
        profile_name: copy_str(profile_name),
        namespace: copy_str(OFFICIAL_NAMESPACE),
        pack_name: copy_str(pack),
        description: Some(copy_str(description)),
        installs_summary: Some(copy_str(installs)),
    }
}

/// The packs that are maintained with the program.
pub fn official_packs(agent: &AgentNames) -> (r: Vec<OfficialPack>)
    ensures
        official_rows(r@) == known_rows(agent.pack@, agent.product@),
{
    let pack = agent.pack.as_str();
    let product = agent.product.as_str();
    let installs = concat3("sandbox profile + ", product, " plugin (hooks, skill)");
    let about = concat3("Anthropic ", product, " sandbox profile + plugin");
    let old_name = concat2(pack, "-code");
    let old_about = concat5(
        "Anthropic ",
        product,
        " (legacy profile name; canonical is `",
        pack,
        "`)",
    );
    let mut r: Vec<OfficialPack> = Vec::new();
    r.push(official_pack(pack, pack, about.as_str(), installs.as_str()));
    r.push(official_pack(old_name.as_str(), pack, old_about.as_str(), installs.as_str()));
    r.push(
        official_pack(
            "codex",
            "codex",
            "OpenAI Codex CLI sandbox profile + plugin",
            "sandbox profile + Codex plugin (hooks, skill)",
        ),
    );
    assert(official_rows(r@) =~= known_rows(agent.pack@, agent.product@));
    r
}

/// The pack whose earlier releases put hooks into the user's settings: the agent's official one.
pub open spec fn names_hook_pack(agent: AgentNames, namespace: Seq<char>, name: Seq<char>) -> bool {
    namespace == OFFICIAL_NAMESPACE@ && name == agent.pack@
}

pub(crate) fn is_hook_pack_name(agent: &AgentNames, namespace: &str, name: &str) -> (r: bool)
    ensures
        r == names_hook_pack(*agent, namespace@, name@),
{
    str_eq(namespace, OFFICIAL_NAMESPACE) && str_eq(name, agent.pack.as_str())
}

/// The agent's profile is provided by its official pack, under the new name and the old one alike,
/// and that for Codex by the one for Codex.
pub proof fn law_known_names_have_their_packs(packs: Seq<OfficialPack>, pack: Seq<char>, product: Seq<char>)
    requires
        official_rows(packs) == known_rows(pack, product),
    ensures
        official_provider(packs, pack) matches Some(p) && p.namespace == OFFICIAL_NAMESPACE@
            && p.name == pack,
        official_provider(packs, pack + "-code"@) matches Some(p) && p.namespace
            == OFFICIAL_NAMESPACE@ && p.name == pack,
        official_provider(packs, "codex"@) matches Some(p) && p.namespace == OFFICIAL_NAMESPACE@
            && p.name == "codex"@,
{
    reveal_strlit("-code");
    reveal_strlit("codex");
    let rows = official_rows(packs);
    assert(rows.len() == 3 && packs.len() == 3);
    assert(rows[0].profile_name == packs[0].profile_name@ && rows[0].provider
        == packs[0].provider());
    assert(rows[1].profile_name == packs[1].profile_name@ && rows[1].provider
        == packs[1].provider());
    assert(rows[2].profile_name == packs[2].profile_name@ && rows[2].provider
        == packs[2].provider());
    let rest = packs.skip(1);
    let last = rest.skip(1);
    assert(rest[0] == packs[1] && last[0] == packs[2]);
    let old_name = pack + "-code"@;
    assert(old_name.len() == pack.len() + 5);
    assert(old_name != "codex"@) by {
        if old_name.len() == 5 {
            assert(old_name[0] == '-');
        }
    }
    assert(official_provider(rest, old_name) == Some(packs[1].provider()));
    assert(official_provider(rest, "codex"@) == official_provider(last, "codex"@));
}

/// The official pack for the name of a profile: the first row that holds the name.
pub open spec fn official_provider(packs: Seq<OfficialPack>, name: Seq<char>) -> Option<ProviderView>
    decreases packs.len(),
{
    if packs.len() == 0 {
        None
    } else if packs[0].profile_name@ == name {
        Some(packs[0].provider())
    } else {
        official_provider(packs.skip(1), name)
    }
}

/// Looks for the official pack that provides a profile.
pub fn official_pack_for<'a>(packs: &'a Vec<OfficialPack>, name: &str) -> (r: Option<&'a OfficialPack>)
    ensures
        match r {
            Some(p) => official_provider(packs@, name@) == Some(p.provider()) && p.profile_name@
                == name@,
            None => official_provider(packs@, name@) is None,
        },
{
    let mut i: usize = 0;
    assert(packs@.skip(0) =~= packs@);
    while i < packs.len()
        invariant
            i <= packs@.len(),
            official_provider(packs@, name@) == official_provider(packs@.skip(i as int), name@),
        decreases packs@.len() - i,
    {
        assert(packs@.skip(i as int).skip(1) =~= packs@.skip(i + 1));
        if str_eq(packs[i].profile_name.as_str(), name) {
            return Some(&packs[i]);
        }
        i += 1;
    }
    None
}

/// A row behind those that already answer for a name changes nothing for that name.
pub proof fn law_earlier_rows_answer(packs: Seq<OfficialPack>, more: Seq<OfficialPack>, name: Seq<char>)
    ensures
        official_provider(packs, name) is Some ==> official_provider(packs + more, name)
            == official_provider(packs, name),
        official_provider(packs, name) is None ==> official_provider(packs + more, name)
            == official_provider(more, name),
    decreases packs.len(),
{
    if packs.len() == 0 {
        assert(packs + more =~= more);
    } else {
        assert((packs + more).skip(1) =~= packs.skip(1) + more);
        law_earlier_rows_answer(packs.skip(1), more, name);
    }
}

/// What came of the offer.
#[derive(Clone, Copy, Debug, PartialEq, Eq, Structural)]
pub enum MigrationOutcome {
    /// No pack provides the profile.
    NotApplicable,
    /// The pack was installed; the profile can be looked for again.
    Migrated,
    /// Nothing was installed.
    Skipped,
}

/// A name that can only be meant as a path or as a reference to a pack.
pub open spec fn path_or_ref(name: Seq<char>) -> bool {
    name.contains('/') || has_suffix(name, ".json"@)
}

pub fn is_path_or_registry_ref(name: &str) -> (r: bool)
    ensures
        r == path_or_ref(name@),
{
    let v = chars_of(name);
    contains_char(&v, '/') || str_ends_with(name, ".json")
}

/// A variable is set to a word that means yes.
pub open spec fn is_truthy(value: Option<Seq<char>>) -> bool {
    value == Some("1"@) || value == Some("true"@) || value == Some("yes"@)
}

pub fn env_flag(value: &Option<String>) -> (r: bool)
    ensures
        r == is_truthy(opt_view(*value)),
{
    match value {
        Some(v) => str_eq(v.as_str(), "1") || str_eq(v.as_str(), "true") || str_eq(
            v.as_str(),
            "yes",
        ),
        None => false,
    }
}

/// Whether there is nothing to look for at all.
pub fn migration_precheck(name: &str, switched_off: bool) -> (r: Option<MigrationOutcome>)
    ensures
        r == if path_or_ref(name@) {
            Some(MigrationOutcome::NotApplicable)
        } else if switched_off {
            Some(MigrationOutcome::Skipped)
        } else {
            None
        },
{
    if is_path_or_registry_ref(name) {
        Some(MigrationOutcome::NotApplicable)
    } else if switched_off {
        Some(MigrationOutcome::Skipped)
    } else {
        None
    }
}

/// The pack to offer for a profile: the official one, or the first that the registry names.
pub open spec fn chosen_provider(
    packs: Seq<OfficialPack>,
    name: Seq<char>,
    found: Option<Vec<ProfileProvider>>,
) -> Option<ProviderView> {
    match official_provider(packs, name) {
        Some(p) => Some(p),
        None => match found {
            Some(v) => if v@.len() > 0 {
                Some(provider_view(v@[0]))
            } else {
                None
            },
            None => None,
        },
    }
}

/// Chooses the pack to offer: the official one, or the first that the registry names. Where the
/// registry could not be asked, there is none.
pub fn choose_provider(
    packs: &Vec<OfficialPack>,
    name: &str,
    found: Option<Vec<ProfileProvider>>,
) -> (r: Option<ProfileProvider>)
    ensures
        match official_provider(packs@, name@) {
            Some(p) => r is Some && provider_view(r->0) == p,
            None => match found {
                Some(v) => if v@.len() > 0 {
                    r == Some(v@[0])
                } else {
                    r is None
                },
                None => r is None,
            },
        },
{
    if let Some(p) = official_pack_for(packs, name) {
        return Some(p.as_provider());
    }
    match found {
        Some(v) => {
            let mut v = v;
            if v.len() > 0 {
                Some(v.remove(0))
            } else {
                None
            }
        },
        None => None,
    }
}

/// How the installation goes on.
#[derive(Clone, Copy, Debug, PartialEq, Eq, Structural)]
pub enum MigrationStep {
    Install,
    Ask,
    /// The user would have to be asked but cannot be.
    CannotAsk,
}

pub fn migration_step(auto: bool, interactive: bool) -> (r: MigrationStep)
    ensures
        r == if auto {
            MigrationStep::Install
        } else if interactive {
            MigrationStep::Ask
        } else {
            MigrationStep::CannotAsk
        },
{
    if auto {
        MigrationStep::Install
    } else if interactive {
        MigrationStep::Ask
    } else {
        MigrationStep::CannotAsk
    }
}

/// How a request for a profile that is not here goes on.
#[derive(Debug)]
pub enum MigrationPlan {
    Done(MigrationOutcome),
    Install(ProfileProvider),
    Ask(ProfileProvider),
    CannotAsk(ProfileProvider),
}

/// Decides on a request for a profile that is not here. `found` is what the registry names, where
/// it was asked and answered.
pub fn check_and_run(
    packs: &Vec<OfficialPack>,
    name: &str,
    switched_off: bool,
    found: Option<Vec<ProfileProvider>>,
    auto: bool,
    interactive: bool,
) -> (r: MigrationPlan)
    ensures
        path_or_ref(name@) ==> r == MigrationPlan::Done(MigrationOutcome::NotApplicable),
        !path_or_ref(name@) && switched_off ==> r == MigrationPlan::Done(MigrationOutcome::Skipped),
        !path_or_ref(name@) && !switched_off ==> {
            let chosen = chosen_provider(packs@, name@, found);
            match r {
                MigrationPlan::Done(o) => chosen is None && o == MigrationOutcome::NotApplicable,
                MigrationPlan::Install(p) => chosen == Some(provider_view(p)) && auto,
                MigrationPlan::Ask(p) => chosen == Some(provider_view(p)) && !auto && interactive,
                MigrationPlan::CannotAsk(p) => chosen == Some(provider_view(p)) && !auto
                    && !interactive,
            }
        },
{
    if let Some(outcome) = migration_precheck(name, switched_off) {
        return MigrationPlan::Done(outcome);
    }
    let p = match choose_provider(packs, name, found) {
        Some(p) => p,
        None => {
            return MigrationPlan::Done(MigrationOutcome::NotApplicable);
        },
    };
    match migration_step(auto, interactive) {
        MigrationStep::Install => MigrationPlan::Install(p),
        MigrationStep::Ask => MigrationPlan::Ask(p),
        MigrationStep::CannotAsk => MigrationPlan::CannotAsk(p),
    }
}

/// Whatever the registry names, an official pack for a name is the one that is offered.
pub proof fn law_official_packs_come_first(
    packs: Seq<OfficialPack>,
    name: Seq<char>,
    found: Option<Vec<ProfileProvider>>,
)
    ensures
        official_provider(packs, name) is Some ==> chosen_provider(packs, name, found)
            == official_provider(packs, name),
{
}

/// What comes of installing a pack: only where that fails, the request does. What becomes of the
/// offer to clean up after it changes nothing.
pub fn after_pull(pull: Result<(), NonoError>, _cleanup: Result<(), NonoError>) -> (r: Result<
    MigrationOutcome,
    NonoError,
>)
    ensures
        pull is Ok ==> r == Ok::<MigrationOutcome, NonoError>(MigrationOutcome::Migrated),
        pull matches Err(e) ==> r == Err::<MigrationOutcome, NonoError>(e),
{
    match pull {
        Ok(()) => Ok(MigrationOutcome::Migrated),
        Err(e) => Err(e),
    }
}

/// What comes of a request: where nothing is installed, what was decided; else what installing
/// comes to.
pub fn finish_migration(
    plan: &MigrationPlan,
    confirmed: bool,
    pull: Result<(), NonoError>,
    cleanup: Result<(), NonoError>,
) -> (r: Result<MigrationOutcome, NonoError>)
    ensures
        match *plan {
            MigrationPlan::Done(o) => r == Ok::<MigrationOutcome, NonoError>(o),
            MigrationPlan::CannotAsk(_) => r == Ok::<MigrationOutcome, NonoError>(
                MigrationOutcome::Skipped,
            ),
            MigrationPlan::Ask(_) => if !confirmed {
                r == Ok::<MigrationOutcome, NonoError>(MigrationOutcome::Skipped)
            } else if pull is Ok {
                r == Ok::<MigrationOutcome, NonoError>(MigrationOutcome::Migrated)
            } else {
                r == Err::<MigrationOutcome, NonoError>(pull->Err_0)
            },
            MigrationPlan::Install(_) => if pull is Ok {
                r == Ok::<MigrationOutcome, NonoError>(MigrationOutcome::Migrated)
            } else {
                r == Err::<MigrationOutcome, NonoError>(pull->Err_0)
            },
        },
{
    match plan {
        MigrationPlan::Done(o) => Ok(*o),
        MigrationPlan::CannotAsk(_) => Ok(MigrationOutcome::Skipped),
        MigrationPlan::Ask(_) => if confirmed {
            after_pull(pull, cleanup)
        } else {
            Ok(MigrationOutcome::Skipped)
        },
        MigrationPlan::Install(_) => after_pull(pull, cleanup),
    }
}

/// Whether installing a pack is followed by an offer to clean up the hooks that earlier releases of
/// it put into the user's settings.
pub fn is_hook_pack(p: &ProfileProvider, agent: &AgentNames) -> (r: bool)
    ensures
        r == names_hook_pack(*agent, p.namespace@, p.name@),
{
    is_hook_pack_name(agent, p.namespace.as_str(), p.name.as_str())
}

/// Whether the user agreed: also by pressing Enter.
pub fn is_install_confirmed(line: &str) -> (r: bool)
    ensures
        ({
            let a = lower(trim(line@));
            r == (a.len() == 0 || a == "y"@ || a == "yes"@)
        }),
{
    let t = str_trim(line);
    let a = str_lower(t.as_str());
    a.as_str().is_empty() || str_eq(a.as_str(), "y") || str_eq(a.as_str(), "yes")
}

// ---------------------------------------------------------------------------
// What is said
// ---------------------------------------------------------------------------

/// A row with a label of fixed width.
pub open spec fn field_line(label: Seq<char>, value: Seq<char>) -> LineView {
    seq![
        (Style::Plain, "     "@),
        (Style::Dim, padded(label, 10)),
        (Style::Plain, "   "@),
        (Style::Plain, value),
    ]
}

fn write_field(out: &mut Report, label: &str, value: &str)
    ensures
        final(out)@ == old(out)@.push(field_line(label@, value@)),
{
    let l = pad_right(label, 10);
    out.line4(
        Style::Plain,
        "     ",
        Style::Dim,
        l.as_str(),
        Style::Plain,
        "   ",
        Style::Plain,
        value,
    );
}

pub open spec fn installs_line(summary: Option<Seq<char>>) -> Seq<LineView> {
    match summary {
        Some(s) => seq![field_line("Installs"@, s)],
        None => Seq::empty(),
    }
}

/// The question whether to install a pack. The last line is left open for the answer.
pub open spec fn confirm_lines(name: Seq<char>, p: ProviderView) -> Seq<LineView> {
    Seq::<LineView>::empty().push(blank_line()).push(
        seq![
            (Style::Plain, "  "@),
            (Style::Cyan, "⊕"@),
            (Style::Plain, "  Install "@),
            (Style::Bold, slashed(p.namespace, p.name)),
            (Style::Plain, "?"@),
        ],
    ).push(blank_line()).push(
        seq![
            (Style::Plain, "     The `"@),
            (Style::Plain, name),
            (Style::Plain, "` profile is provided by this registry pack."@),
        ],
    ).push(blank_line()).push(
        field_line("Publisher"@, p.namespace + " GitHub organisation"@),
    ).push(
        field_line("Provenance"@, "Sigstore cryptographic supply chain (verified on pull)"@),
    ) + installs_line(p.installs_summary) + Seq::<LineView>::empty().push(blank_line()).push(
        seq![
            (Style::Plain, "  "@),
            (Style::Cyan, "ⓘ"@),
            (Style::Plain, "  First time seeing this prompt? Background, trust model,"@),
        ],
    ).push(
        seq![
            (Style::Plain, "     and what gets installed: "@),
            (Style::Dim, LEARN_MORE_URL@),
        ],
    ).push(blank_line()).push(seq![(Style::Plain, "  Continue? [Y/n] "@)])
}

pub fn confirm_pull(name: &str, p: &ProfileProvider) -> (out: Report)
    ensures
        out@ == confirm_lines(name@, provider_view(*p)),
{
    let mut out = Report::new();
    let pack = p.pack_ref();
    let publisher = concat2(p.namespace.as_str(), " GitHub organisation");
    out.blank();
    out.line5(
        Style::Plain,
        "  ",
        Style::Cyan,
        "⊕",
        Style::Plain,
        "  Install ",
        Style::Bold,
        pack.as_str(),
        Style::Plain,
        "?",
    );
    out.blank();
    out.line3(
        Style::Plain,
        "     The `",
        Style::Plain,
        name,
        Style::Plain,
        "` profile is provided by this registry pack.",
    );
    out.blank();
    write_field(&mut out, "Publisher", publisher.as_str());
    write_field(
        &mut out,
        "Provenance",
        "Sigstore cryptographic supply chain (verified on pull)",
    );
    if let Some(s) = &p.installs_summary {
        write_field(&mut out, "Installs", s.as_str());
    }
    out.blank();
    out.line3(
        Style::Plain,
        "  ",
        Style::Cyan,
        "ⓘ",
        Style::Plain,
        "  First time seeing this prompt? Background, trust model,",
    );
    out.line2(Style::Plain, "     and what gets installed: ", Style::Dim, LEARN_MORE_URL);
    out.blank();
    out.line1(Style::Plain, "  Continue? [Y/n] ");
    assert(out@ =~= confirm_lines(name@, provider_view(*p)));
    out
}

#[derive(Clone, Copy, Debug, PartialEq, Eq, Structural)]
pub enum SkipReason {
    Declined,
    NonInteractive,
}

/// What is said where nothing was installed.
pub open spec fn skipped_lines(pack: Seq<char>, reason: SkipReason) -> Seq<LineView> {
    let command = "nono pull "@ + pack;
    let middle = match reason {
        SkipReason::Declined => Seq::<LineView>::empty().push(blank_line()).push(
            seq![
                (Style::Plain, "  install skipped — install later with: "@),
                (Style::Bold, command),
            ],
        ),
        SkipReason::NonInteractive => Seq::<LineView>::empty().push(blank_line()).push(
            seq![(Style::Plain, "  install required but no TTY available. Either:"@)],
        ).push(seq![(Style::Plain, "    "@), (Style::Bold, command)]).push(
            seq![
                (Style::Plain, "  or re-run with "@),
                (Style::Bold, "NONO_AUTO_MIGRATE=1"@),
                (Style::Plain, " to install non-interactively."@),
            ],
        ),
    };
    middle.push(seq![(Style::Plain, "  Learn more: "@), (Style::Dim, LEARN_MORE_URL@)]).push(
        blank_line(),
    )
}

pub fn emit_skipped_hint(p: &ProfileProvider, reason: SkipReason) -> (out: Report)
    ensures
        out@ == skipped_lines(slashed(p.namespace@, p.name@), reason),
{
    let mut out = Report::new();
    let pack = p.pack_ref();
    let command = concat2("nono pull ", pack.as_str());
    out.blank();
    match reason {
        SkipReason::Declined => {
            out.line2(
                Style::Plain,
                "  install skipped — install later with: ",
                Style::Bold,
                command.as_str(),
            );
        },
        SkipReason::NonInteractive => {
            out.line1(Style::Plain, "  install required but no TTY available. Either:");
            out.line2(Style::Plain, "    ", Style::Bold, command.as_str());
            out.line3(
                Style::Plain,
                "  or re-run with ",
                Style::Bold,
                "NONO_AUTO_MIGRATE=1",
                Style::Plain,
                " to install non-interactively.",
            );
        },
    }
    out.line2(Style::Plain, "  Learn more: ", Style::Dim, LEARN_MORE_URL);
    out.blank();
    out
}

} // verus!
