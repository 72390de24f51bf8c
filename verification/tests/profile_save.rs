use nono_cli::capability::{AccessMode, CapabilitySource, FsCapability};
use nono_cli::error::NonoError;
use nono_cli::profile::{FilesystemConfig, Profile};
use nono_cli::profile_save_runtime::patch::{
    build_run_profile_patch, build_suppress_save_prompt_patch, has_saveable_system_service_rules,
    merge_profile_patch, patch_has_policy_overrides, patch_is_suppression_only,
    shorten_path_for_profile, Denial, PathHint, SandboxViolation, USER_PREFERENCES_SEATBELT_RULE,
};
use nono_cli::profile_save_runtime::offer::{
    offer_save_step, patch_traits, PatchTraits, SaveDo, SaveEvent, SaveOffer,
};
use nono_cli::profile_save_runtime::prompts::{
    command_name, confirm, confirm_typed_word, is_update_of_existing, parse_profile_name,
    parse_profile_save_choice, profile_name_from_command, profile_name_question,
    profile_save_help, profile_save_question,
    prompt_inline_for_tty, prompt_line, prompt_line_for_tty, selected_profile_save_patch,
    suggested_run_profile_name, terminal_prompts_available, would_shadow_builtin, NameAnswer,
    ProfileSaveChoice, SelectedPatch,
};
use nono_cli::profile_save_runtime::save::{
    prepare_profile_save_from_patch, print_patch_preview, print_profile_save,
    print_suppression_save_note, SaveAction,
};
use nono_cli::query_ext::{PathFacts, SensitiveMatch};

fn s(t: &str) -> String {
    t.to_string()
}

fn home() -> Result<String, NonoError> {
    Ok(s("/home/u"))
}

fn denial(path: &str, access: AccessMode, reason: &str) -> Denial {
    Denial {
        path: s(path),
        access,
        reason: s(reason),
        facts: PathFacts { is_file: true, exists: true },
        canonical_path: s(path),
        canonical_target: s(path),
    }
}

fn builtin() -> Option<Vec<String>> {
    Some(vec![s("default"), s("opencode")])
}

#[test]
fn build_run_profile_patch_adds_bypass_protection_for_sensitive_file() {
    let denials =
        vec![denial("/home/u/.agent/settings.json", AccessMode::Read, "sensitive_path")];
    let patch = build_run_profile_patch(&denials, &vec![], &vec![], &vec![], &vec![], &home())
        .expect("build patch")
        .expect("patch");
    assert_eq!(patch.filesystem.read_file, vec!["~/.agent/settings.json"]);
    assert_eq!(patch.filesystem.bypass_protection, vec!["~/.agent/settings.json"]);
}

#[test]
fn build_run_profile_patch_merges_read_and_write_to_allow_file() {
    let denials = vec![
        denial("/home/u/config.json", AccessMode::Read, "path_not_granted"),
        denial("/home/u/config.json", AccessMode::Write, "insufficient_access"),
    ];
    let patch = build_run_profile_patch(&denials, &vec![], &vec![], &vec![], &vec![], &home())
        .expect("build patch")
        .expect("patch");
    assert_eq!(patch.filesystem.allow_file, vec!["~/config.json"]);
    assert!(patch.filesystem.read_file.is_empty());
    assert!(patch.filesystem.write_file.is_empty());
}

#[test]
fn build_run_profile_patch_omits_ignored_denials() {
    let denials = vec![
        denial("/home/u/.copilot/settings.json", AccessMode::Read, "path_not_granted"),
        denial("/home/u/.copilot/config.json", AccessMode::Read, "path_not_granted"),
    ];
    let ignored = vec![s("/home/u/.copilot/settings.json")];
    let patch = build_run_profile_patch(&denials, &vec![], &vec![], &vec![], &ignored, &home())
        .expect("build patch")
        .expect("patch");
    assert_eq!(patch.filesystem.read_file, vec!["~/.copilot/config.json"]);
}

#[test]
fn build_run_profile_patch_returns_none_when_all_denials_are_ignored() {
    let denials =
        vec![denial("/home/u/.copilot/settings.json", AccessMode::Read, "path_not_granted")];
    let ignored = vec![s("/home/u/.copilot/settings.json")];
    let patch = build_run_profile_patch(&denials, &vec![], &vec![], &vec![], &ignored, &home())
        .expect("build patch");
    assert!(patch.is_none());
}

#[test]
fn build_suppress_save_prompt_patch_collects_all_grant_paths() {
    let grant_patch = Profile {
        filesystem: FilesystemConfig {
            read: vec!["~/workspace".to_string()],
            read_file: vec!["~/.copilot/settings.json".to_string()],
            allow_file: vec!["~/.copilot/config.json".to_string()],
            bypass_protection: vec!["~/.copilot/settings.json".to_string()],
            ..Default::default()
        },
        ..Default::default()
    };

    let suppress_patch = build_suppress_save_prompt_patch(&grant_patch).expect("suppression patch");

    assert_eq!(
        suppress_patch.filesystem.suppress_save_prompt,
        vec![
            "~/.copilot/config.json".to_string(),
            "~/.copilot/settings.json".to_string(),
            "~/workspace".to_string(),
        ]
    );
    assert!(suppress_patch.filesystem.read.is_empty());
    assert!(suppress_patch.filesystem.read_file.is_empty());
    assert!(suppress_patch.filesystem.bypass_protection.is_empty());
}

#[test]
fn build_suppress_save_prompt_patch_ignores_unsafe_only_patch() {
    let grant_patch = Profile {
        unsafe_macos_seatbelt_rules: vec![USER_PREFERENCES_SEATBELT_RULE.to_string()],
        ..Default::default()
    };

    assert!(build_suppress_save_prompt_patch(&grant_patch).is_none());
}

#[test]
fn parse_profile_save_choice_supports_grant_suppress_and_skip() {
    assert_eq!(parse_profile_save_choice("g", true), Some(ProfileSaveChoice::Grant));
    assert_eq!(parse_profile_save_choice("yes", true), Some(ProfileSaveChoice::Grant));
    assert_eq!(parse_profile_save_choice("s", true), Some(ProfileSaveChoice::Suppress));
    assert_eq!(parse_profile_save_choice("no-nag", true), Some(ProfileSaveChoice::Suppress));
    assert_eq!(parse_profile_save_choice("", true), Some(ProfileSaveChoice::Skip));
    assert_eq!(parse_profile_save_choice("no", true), Some(ProfileSaveChoice::Skip));
    assert_eq!(parse_profile_save_choice("s", false), None);
}

#[test]
fn build_run_profile_patch_adds_unsafe_rule_for_user_preferences_violation() {
    let violations = vec![SandboxViolation {
        operation: "user-preference-read".to_string(),
        target: Some("kcfpreferencesanyapplication".to_string()),
    }];
    assert!(has_saveable_system_service_rules(&violations));

    let patch = build_run_profile_patch(&vec![], &vec![], &vec![], &violations, &vec![], &home())
        .expect("build patch")
        .expect("patch");

    assert_eq!(
        patch.unsafe_macos_seatbelt_rules,
        vec![USER_PREFERENCES_SEATBELT_RULE.to_string()]
    );
    assert!(patch.filesystem.allow.is_empty());
    assert!(patch.filesystem.read.is_empty());
    assert!(patch.filesystem.write.is_empty());
}

#[test]
fn unsafe_macos_seatbelt_rules_count_as_policy_overrides() {
    let mut patch = Profile::default();
    assert!(!patch_has_policy_overrides(&patch));

    patch.unsafe_macos_seatbelt_rules = vec![USER_PREFERENCES_SEATBELT_RULE.to_string()];

    assert!(patch_has_policy_overrides(&patch));
}

#[test]
fn suggested_run_profile_name_uses_compared_profile_when_available() {
    assert_eq!(
        suggested_run_profile_name(&Some(s("agent-code")), false, "copilot", false, &builtin()),
        Some("agent-code-local".to_string())
    );
}

#[test]
fn suggested_run_profile_name_falls_back_to_command_name() {
    assert_eq!(
        suggested_run_profile_name(&None, false, "copilot", false, &builtin()),
        Some("copilot".to_string())
    );
    assert_eq!(
        suggested_run_profile_name(&None, false, "GitHub.Copilot", false, &builtin()),
        Some("github-copilot".to_string())
    );
}

#[test]
fn suggested_run_profile_name_avoids_shadowing_builtin() {
    assert_eq!(suggested_run_profile_name(&None, false, "opencode", false, &builtin()), None);
}

#[test]
fn prompt_line_uses_crlf_for_terminal_layout() {
    assert_eq!(
        prompt_line("[nono] Paths to be saved as grants:"),
        "[nono] Paths to be saved as grants:\r\n"
    );
    assert_eq!(prompt_line(""), "\r\n");
}

#[test]
fn prompt_tty_rendering_clears_line_tails() {
    assert_eq!(
        prompt_line_for_tty("[nono] Paths to be saved as grants:"),
        "\r[nono] Paths to be saved as grants:\u{1b}[K\r\n"
    );
    assert_eq!(
        prompt_inline_for_tty("Update profile? [Y/n] "),
        "\rUpdate profile? [Y/n] \u{1b}[K"
    );
}

#[test]
fn prepare_profile_save_from_patch_updates_existing_user_profile() {
    let mut existing = Profile::default();
    existing.meta.name = s("agent-code-local");
    existing.meta.version = s("1.0.0");
    existing.filesystem.read_file = vec![s("~/old.json")];
    existing.filesystem.bypass_protection = vec![s("~/old.json")];

    let mut patch = Profile::default();
    patch.filesystem.read_file = vec!["~/.agent/settings.json".to_string()];
    patch.filesystem.bypass_protection = vec!["~/.agent/settings.json".to_string()];
    patch.unsafe_macos_seatbelt_rules = vec![USER_PREFERENCES_SEATBELT_RULE.to_string()];

    let prepared = prepare_profile_save_from_patch(
        patch,
        "agent",
        "agent-code-local",
        &Some(s("agent-code")),
        s("/home/u/.config/nono/profiles/agent-code-local.json"),
        Some(existing),
    );

    assert!(matches!(prepared.action, SaveAction::Updated));
    assert_eq!(
        prepared.profile.filesystem.read_file,
        vec!["~/old.json".to_string(), "~/.agent/settings.json".to_string()]
    );
    assert_eq!(
        prepared.profile.filesystem.bypass_protection,
        vec!["~/old.json".to_string(), "~/.agent/settings.json".to_string()]
    );
    assert_eq!(
        prepared.profile.unsafe_macos_seatbelt_rules,
        vec![USER_PREFERENCES_SEATBELT_RULE.to_string()]
    );
    let lines = print_profile_save(&prepared, "agent").plain_lines();
    assert_eq!(
        lines[0],
        "\nProfile updated: /home/u/.config/nono/profiles/agent-code-local.json"
    );
    assert_eq!(lines[lines.len() - 1], "Run with: nono run --profile agent-code-local -- agent");
}

#[test]
fn prepare_profile_save_from_suppression_patch_uses_suppression_description() {
    let patch = Profile {
        filesystem: FilesystemConfig {
            suppress_save_prompt: vec!["~/.copilot/settings.json".to_string()],
            ..Default::default()
        },
        ..Default::default()
    };
    assert!(patch_is_suppression_only(&patch));
    assert!(print_suppression_save_note(&patch).is_some());

    let prepared = prepare_profile_save_from_patch(
        patch,
        "agent",
        "agent-local",
        &Some(s("agent-code")),
        s("/p/agent-local.json"),
        None,
    );

    assert!(matches!(prepared.action, SaveAction::Created));
    assert_eq!(prepared.profile.extends, Some(vec!["agent-code".to_string()]));
    assert_eq!(
        prepared.profile.meta.description.as_deref(),
        Some("Runtime-discovered save-prompt suppressions for agent")
    );
    assert_eq!(
        prepared.profile.filesystem.suppress_save_prompt,
        vec!["~/.copilot/settings.json"]
    );
    assert!(prepared.profile.filesystem.read_file.is_empty());
}

#[test]
fn would_shadow_builtin_flags_known_builtin_names() {
    assert!(would_shadow_builtin("opencode", false, &builtin()));
    assert!(!would_shadow_builtin("my-unique-saved-profile", false, &builtin()));
}

#[test]
fn would_shadow_builtin_allows_update_of_existing_user_override() {
    assert!(!would_shadow_builtin("opencode", true, &builtin()));
}

#[test]
fn hints_of_granted_and_sensitive_paths() {
    let hint = |path: &str, sensitive: bool| PathHint {
        path: s(path),
        access: AccessMode::Read,
        facts: PathFacts { is_file: true, exists: true },
        canonical_path: s(path),
        canonical_target: s(path),
        sensitivity: Ok(if sensitive {
            Some(SensitiveMatch { group_name: s("g"), description: s("d") })
        } else {
            None
        }),
    };
    let caps = vec![FsCapability {
        original: s("/w"),
        resolved: s("/w"),
        access: AccessMode::Read,
        is_file: false,
        source: CapabilitySource::User,
    }];
    let hints = vec![hint("/w/a", false), hint("/home/u/.ssh/id", true), hint("/opt/x", false)];
    let patch = build_run_profile_patch(&vec![], &hints, &caps, &vec![], &vec![], &home())
        .expect("build patch")
        .expect("patch");
    assert_eq!(patch.filesystem.read_file, vec!["/opt/x", "~/.ssh/id"]);
    assert_eq!(patch.filesystem.bypass_protection, vec!["~/.ssh/id"]);
    let preview = print_patch_preview(&patch).plain_lines().join("\n");
    assert!(preview.contains("/opt/x"));
    let failed = Err(NonoError::HomeNotFound);
    assert!(build_run_profile_patch(&vec![], &hints, &caps, &vec![], &vec![], &failed).is_err());
}

#[test]
fn home_is_shortened() {
    assert_eq!(shorten_path_for_profile("/home/u/a/b", "/home/u"), "~/a/b");
    assert_eq!(shorten_path_for_profile("/home/u", "/home/u"), "~/");
    assert_eq!(shorten_path_for_profile("/home/uu/a", "/home/u"), "/home/uu/a");
}

#[test]
fn merging_again_adds_nothing() {
    let mut p = Profile::default();
    p.filesystem.read = vec![s("/a")];
    let mut patch = Profile::default();
    patch.filesystem.read = vec![s("/b"), s("/a")];
    merge_profile_patch(&mut p, &patch);
    assert_eq!(p.filesystem.read, vec!["/a", "/b"]);
    merge_profile_patch(&mut p, &patch);
    assert_eq!(p.filesystem.read, vec!["/a", "/b"]);
}

#[test]
fn questions_and_answers() {
    assert!(confirm("\n", true));
    assert!(!confirm("\n", false));
    assert!(confirm(" Yes \n", false));
    assert!(!confirm("nope", true));
    assert!(confirm_typed_word(" save \n", "save"));
    assert!(!confirm_typed_word("sav", "save"));
    assert!(terminal_prompts_available(&None, false, true, false));
    assert!(!terminal_prompts_available(&Some(s("1")), true, true, true));
    assert!(!terminal_prompts_available(&None, false, false, false));
    assert_eq!(profile_save_help(false), "Enter g to save, or press Enter to skip.");
    assert_eq!(profile_name_question(&Some(s("x")), true), "User profile name [x]: ");
    assert_eq!(profile_name_question(&None, false), "Enter a name: ");
    assert_ne!(profile_save_question(&None, true), profile_save_question(&None, false));
    assert_eq!(
        selected_profile_save_patch(ProfileSaveChoice::Grant, true, true),
        SelectedPatch::GrantIfConfirmed
    );
    assert_eq!(
        selected_profile_save_patch(ProfileSaveChoice::Skip, true, true),
        SelectedPatch::Nothing
    );
    assert_eq!(
        selected_profile_save_patch(ProfileSaveChoice::Suppress, true, false),
        SelectedPatch::Suppress
    );
}

#[test]
fn profile_names() {
    assert!(matches!(parse_profile_name("\n", &Some(s("x"))), NameAnswer::Accept(n) if n == "x"));
    assert!(matches!(parse_profile_name("\n", &None), NameAnswer::Again(_)));
    assert!(matches!(parse_profile_name("skip", &None), NameAnswer::Skip));
    assert!(matches!(parse_profile_name("a b", &None), NameAnswer::Again(_)));
    assert!(matches!(parse_profile_name(" my-one ", &None), NameAnswer::Candidate(n) if n == "my-one"));
    assert_eq!(profile_name_from_command("__"), None);
    assert_eq!(profile_name_from_command("My.Tool_2").as_deref(), Some("my-tool-2"));
    assert_eq!(command_name(&vec![s("/usr/bin/agent"), s("x")]).expect("name"), "agent");
    assert!(command_name(&vec![]).is_err());
    assert!(is_update_of_existing(&Some(s("x")), true));
    assert!(!is_update_of_existing(&None, true));
}

fn begin(has_suppression: bool, has_overrides: bool) -> SaveEvent {
    SaveEvent::Begin {
        can_ask: true,
        patch: Ok(Some(PatchTraits { has_suppression, has_overrides })),
        command: Ok(s("copilot")),
    }
}

fn line(text: &str) -> SaveEvent {
    SaveEvent::Line(Ok(s(text)))
}

#[test]
fn saving_goes_step_by_step() {
    let offer = SaveOffer::new(None, false, false, builtin());
    let (offer, next) = offer_save_step(offer, begin(true, true));
    assert!(matches!(next, SaveDo::Preview { question }
        if question == "Save suggestions to a user profile? [g] grant / [s] suppress / [Enter] skip: "));
    let (offer, next) = offer_save_step(offer, line("what"));
    assert!(matches!(next, SaveDo::AskChoice { .. }));
    let (offer, next) = offer_save_step(offer, line("g"));
    assert!(matches!(next, SaveDo::AskWord { .. }));
    let (offer, next) = offer_save_step(offer, line("Override\n"));
    assert!(matches!(next, SaveDo::AskName { message: None, question }
        if question == "User profile name [copilot]: "));
    let (offer, next) = offer_save_step(offer, line("opencode"));
    assert!(matches!(next, SaveDo::LookUp(name) if name == "opencode"));
    let (offer, next) = offer_save_step(offer, SaveEvent::Looked { user_override: false });
    assert!(matches!(next, SaveDo::AskName { message: Some(_), .. }));
    let (offer, next) = offer_save_step(offer, line(""));
    assert!(matches!(next, SaveDo::Save { suppress: false, name } if name == "copilot"));
    let (offer, next) = offer_save_step(offer, SaveEvent::Written(Ok(())));
    assert!(matches!(next, SaveDo::Report { note: false }));
    assert!(matches!(offer_save_step(offer, line("g")).1, SaveDo::Finish(Ok(()))));
}

#[test]
fn dialogues_that_save_nothing() {
    let offer = || SaveOffer::new(Some(s("mine")), true, false, builtin());
    let silent = SaveEvent::Begin { can_ask: false, patch: Ok(None), command: Ok(s("x")) };
    assert!(matches!(offer_save_step(offer(), silent).1, SaveDo::Finish(Ok(()))));
    let failing = SaveEvent::Begin {
        can_ask: true,
        patch: Err(NonoError::HomeNotFound),
        command: Ok(s("x")),
    };
    assert!(matches!(offer_save_step(offer(), failing).1, SaveDo::Finish(Err(_))));
    let (asked, _) = offer_save_step(offer(), begin(true, true));
    let (asked, next) = offer_save_step(asked, line("yes"));
    assert!(matches!(next, SaveDo::AskWord { .. }));
    assert!(matches!(offer_save_step(asked, line("y")).1, SaveDo::Finish(Ok(()))));
    let (asked, _) = offer_save_step(offer(), begin(true, true));
    assert!(matches!(offer_save_step(asked, line("")).1, SaveDo::Finish(Ok(()))));
}

#[test]
fn own_profiles_are_updated() {
    let offer = SaveOffer::new(Some(s("mine")), true, false, builtin());
    let (offer, _) = offer_save_step(offer, begin(true, true));
    let (offer, next) = offer_save_step(offer, line("s"));
    assert!(matches!(next, SaveDo::Save { suppress: true, name } if name == "mine"));
    let (_, next) = offer_save_step(offer, SaveEvent::Written(Ok(())));
    assert!(matches!(next, SaveDo::Report { note: true }));
    let mut patch = Profile::default();
    patch.filesystem.read = vec![s("/a")];
    assert_eq!(patch_traits(&patch), PatchTraits { has_suppression: true, has_overrides: false });
}
