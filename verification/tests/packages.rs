use nono_cli::digest::sha256_hex;
use nono_cli::json::Json;
use nono_cli::migration::{
    check_and_run, choose_provider, confirm_pull, emit_skipped_hint, env_flag, is_hook_pack,
    is_install_confirmed, is_path_or_registry_ref, migration_precheck, migration_step,
    after_pull, finish_migration, official_pack_for, official_packs, AgentNames,
    MigrationOutcome, MigrationPlan, MigrationStep, SkipReason,
};
use nono_cli::pack_update_hint::{
    classify_packs, collect_profile_packs, hints_after_refresh, is_newer, is_opted_out, load_state,
    parse_refresh_helper_args, print_hints, record_status, refresh_helper_args,
    run_refresh_helper, show_pack_update_hints, PackHintEntry, PackHintsState, Refresh,
};
use nono_cli::package::{
    check_lockfile_version, lockfile_path, package_groups_path, package_install_dir, parse_package_ref,
    remove_package_from_lockfile, ArtifactEntry, ArtifactType, LockedArtifact, LockedPackage,
    Lockfile, PackageAdvisory, PackageManifest, PackageProvenance, PackageRef, PackageSearchResult,
    PackageStatusResponse, ProfileProvider, PullArtifact, PullProvenance, PullResponse,
    WiringRecord, LOCKFILE_VERSION,
};
use nono_cli::package_cmd::installed::{
    check_list_request, check_removable, check_reversal, outdated_entry, outdated_output,
    outdated_report, outdated_to_json, reversal_report, run_list, run_outdated, run_pin,
    run_remove, run_search, run_unpin, run_update, update_keys, UpdateAnswer, UpdateCheck,
    UpdateFate, UpdateTally,
};
use nono_cli::package_cmd::pull::{
    admit_release, already_installed, canonical_signer_identity, check_repull,
    download_and_verify_artifacts, enforce_namespace_assertion,
    enforce_signer_pinning, find_manifest, first_subject_digest, infer_artifact_type,
    install_package, offers_legacy_cleanup, pack_owned_write_file_paths, requested_version, run_pull,
    signer_identity_uri, trust_bundle, update_lockfile, validate_groups, validate_manifest,
    validate_pull_response, validate_relative_path, validate_safe_name, verify_download,
    DownloadFacts, DownloadedArtifact, FileContents, PullStep, SignerIdentity,
};
use nono_cli::package_cmd::versions::compare_versions;
use nono_cli::package_status::{
    depends_on_official_pack_profile, enforce_for_active_profile, enforce_official_pack_status,
    is_official_package_ref, is_official_profile_name, official_pack_status_targets,
    packs_to_look_at, status_registry, yanked_message, OfficialPackStatusTarget,
};
use nono_cli::profile_runtime::{
    packs_to_verify, verified_line, verify_profile_packs, BundleEntry, BundleFile, FileOnDisk,
    PackOnDisk,
};
use std::cmp::Ordering;

fn s(t: &str) -> String {
    t.to_string()
}

fn agent() -> AgentNames {
    AgentNames { pack: s("agent"), product: s("Agent Code") }
}

fn agent_pack() -> OfficialPackStatusTarget {
    official_pack_status_targets(&agent()).remove(0)
}

fn codex_pack() -> OfficialPackStatusTarget {
    official_pack_status_targets(&agent()).remove(1)
}

fn reference(text: &str) -> PackageRef {
    parse_package_ref(text).expect("reference")
}

fn locked(version: &str) -> LockedPackage {
    LockedPackage {
        version: s(version),
        installed_at: s("2026-01-01T00:00:00+00:00"),
        pinned: false,
        provenance: None,
        artifacts: Vec::new(),
        wiring_record: Vec::new(),
    }
}

fn lockfile(packs: &[(&str, &str)]) -> Lockfile {
    Lockfile {
        lockfile_version: 4,
        registry: String::new(),
        packages: packs.iter().map(|(k, v)| (s(k), locked(v))).collect(),
    }
}

fn pull(files: &[&str]) -> PullResponse {
    PullResponse {
        namespace: s("acme"),
        name: s("tool"),
        version: s("1.2.3"),
        provenance: PullProvenance {
            signer_identity: s("x"),
            repository: s("acme/tool"),
            workflow: s(".github/workflows/release.yml"),
            git_ref: s("refs/tags/v1.2.3"),
            rekor_log_index: Some(-1),
            signed_at: None,
        },
        artifacts: files
            .iter()
            .map(|f| PullArtifact {
                filename: s(f),
                sha256_digest: s("aa"),
                size_bytes: 1,
                download_url: s("https://example.com"),
            })
            .collect(),
        bundle_url: s("https://example.com/bundle"),
        scan_passed: true,
    }
}

fn status(word: Option<&str>, latest: Option<&str>) -> PackageStatusResponse {
    PackageStatusResponse {
        schema_version: 1,
        latest: latest.map(s),
        installed_status: word.map(s),
        yank_reason: None,
        advisory: None,
    }
}

#[test]
fn parses_package_ref_with_version() {
    let parsed = parse_package_ref("acme/agent-code@1.2.3").expect("parse");
    assert_eq!(parsed.namespace, "acme");
    assert_eq!(parsed.name, "agent-code");
    assert_eq!(parsed.version.as_deref(), Some("1.2.3"));
}

#[test]
fn rejects_invalid_package_ref() {
    let err = parse_package_ref("broken").expect_err("must fail");
    assert!(err.message().contains("expected <namespace>/<name>"));
}

#[test]
fn reference_failures() {
    let why = |t: &str| parse_package_ref(t).expect_err("bad").message();
    assert_eq!(why("a/b@"), "invalid package reference 'a/b@': version must not be empty");
    assert_eq!(
        why("a/b/c"),
        "invalid package reference 'a/b/c': expected <namespace>/<name>[@<version>]"
    );
    assert_eq!(
        why("a b/c"),
        "invalid package namespace 'a b': only alphanumeric, '-', '_' and '.' are allowed"
    );
    assert_eq!(
        why("a/c c"),
        "invalid package name 'c c': only alphanumeric, '-', '_' and '.' are allowed"
    );
}

#[test]
fn references_read_back() {
    for text in ["acme/tool", "a.b-c_d/e@1.0@rc"] {
        let r = reference(text);
        let written = match &r.version {
            Some(v) => format!("{}@{}", r.key(), v),
            None => r.key(),
        };
        assert_eq!(written, text);
    }
}

#[test]
fn store_paths() {
    assert_eq!(lockfile_path("/home/u/.config"), "/home/u/.config/nono/packages/lockfile.json");
    assert_eq!(
        package_install_dir("/home/u/.config/", "acme", "tool"),
        "/home/u/.config/nono/packages/acme/tool"
    );
    assert_eq!(
        package_groups_path("/c", "acme", "tool"),
        "/c/nono/packages/acme/tool/groups.json"
    );
}

#[test]
fn removing_a_pack_leaves_the_others() {
    let mut l = lockfile(&[("a/a", "1"), ("b/b", "2"), ("c/c", "3")]);
    l.lockfile_version = 0;
    assert!(remove_package_from_lockfile(&mut l, &reference("b/b")));
    assert_eq!(l.lockfile_version, LOCKFILE_VERSION);
    let keys: Vec<&str> = l.packages.iter().map(|(k, _)| k.as_str()).collect();
    assert_eq!(keys, vec!["a/a", "c/c"]);
    assert!(!remove_package_from_lockfile(&mut l, &reference("b/b")));
    assert_eq!(Lockfile::default().packages.len(), 0);
}

#[test]
fn manifests_with_profiles() {
    let mut m = manifest(Vec::new());
    assert!(!m.has_profile_artifact());
    m.artifacts.push(artifact(ArtifactType::Plugin, "a"));
    assert!(!m.has_profile_artifact());
    m.artifacts.push(artifact(ArtifactType::Profile, "p"));
    assert!(m.has_profile_artifact());
}

#[test]
fn compare_versions_honors_prerelease_ordering() {
    let prerelease_vs_stable = compare_versions("1.0.0-alpha.1", "1.0.0")
        .unwrap_or_else(|err| panic!("version compare failed: {err:?}"));
    let stable_vs_prerelease = compare_versions("1.0.0", "1.0.0-alpha.1")
        .unwrap_or_else(|err| panic!("version compare failed: {err:?}"));

    assert_eq!(prerelease_vs_stable, Ordering::Less);
    assert_eq!(stable_vs_prerelease, Ordering::Greater);
}

#[test]
fn versions_are_trimmed_and_may_start_with_v() {
    assert_eq!(compare_versions(" v1.2.3 ", "1.2.3").expect("compare"), Ordering::Equal);
    let e = compare_versions("1.0", "1.0.0").expect_err("two numbers").message();
    assert!(e.starts_with("invalid current nono version '1.0': "));
    let e = compare_versions("1.0.0", "x").expect_err("no number").message();
    assert!(e.starts_with("invalid min_nono_version 'x': "));
}

#[test]
fn yanked_message_pins_latest_when_available() {
    let status = PackageStatusResponse {
        schema_version: 1,
        latest: Some("1.2.3".to_string()),
        installed_status: Some("yanked".to_string()),
        yank_reason: Some("security".to_string()),
        advisory: Some(PackageAdvisory {
            severity: Some("high".to_string()),
            summary: Some("profile policy fix".to_string()),
        }),
    };

    let message = yanked_message("always-further/agent", "1.2.2", &status);
    assert!(message.contains("nono pull always-further/agent@1.2.3 --force"));
    assert!(message.contains("security"));
    assert!(message.contains("high - profile policy fix"));
}

#[test]
fn official_profile_names_include_claude_and_codex() {
    assert!(is_official_profile_name(&agent_pack(), "agent"));
    assert!(is_official_profile_name(&agent_pack(), "agent-code"));
    assert!(is_official_profile_name(&codex_pack(), "codex"));
    assert!(!is_official_profile_name(&agent_pack(), "codex"));
    assert!(!is_official_profile_name(&codex_pack(), "agent"));
}

#[test]
fn canonical_package_refs_target_official_packs() {
    assert!(is_official_package_ref(&agent_pack(), "always-further/agent"));
    assert!(is_official_package_ref(&agent_pack(), "always-further/agent@1.2.3"));
    assert!(is_official_package_ref(&codex_pack(), "always-further/codex"));
    assert!(is_official_package_ref(&codex_pack(), "always-further/codex@1.2.3"));
    assert!(!is_official_package_ref(&agent_pack(), "someone/agent"));
    assert!(!is_official_package_ref(&codex_pack(), "always-further/codex-extra"));
}

#[test]
fn dependence_goes_through_bases_and_circles() {
    let table = vec![
        (s("mine"), vec![s("loop"), s("team")]),
        (s("loop"), vec![s("mine")]),
        (s("team"), vec![s("codex")]),
    ];
    assert!(depends_on_official_pack_profile(&codex_pack(), "mine", &table));
    assert!(!depends_on_official_pack_profile(&agent_pack(), "mine", &table));
    let targets = vec![agent_pack(), codex_pack()];
    assert_eq!(packs_to_look_at(&targets, &Some(s("mine")), &table), vec![1]);
    assert!(packs_to_look_at(&targets, &None, &table).is_empty());

    let l = lockfile(&[("always-further/codex", "1.0.0")]);
    let yanked = vec![None, Some(status(Some("yanked"), Some("1.1.0")))];
    assert!(enforce_for_active_profile(&targets, "mine", &table, &l, &yanked, false)
        .expect_err("yanked")
        .message()
        .contains("nono pull always-further/codex@1.1.0 --force"));
    assert!(enforce_for_active_profile(&targets, "other", &table, &l, &yanked, false)
        .expect("independent")
        .is_empty());
    let outdated = vec![None, Some(status(Some("outdated"), None))];
    let notes = enforce_for_active_profile(&targets, "mine", &table, &l, &outdated, false)
        .expect("notes");
    assert_eq!(notes, vec!["  [nono] official pack always-further/codex@1.0.0 status: outdated"]);
    let none = lockfile(&[]);
    assert!(enforce_for_active_profile(&targets, "mine", &table, &none, &yanked, false).is_ok());
}

#[test]
fn withdrawn_packs_stop_a_run() {
    let e = enforce_official_pack_status(
        &agent_pack(),
        "1.0.0",
        &Some(status(Some("yanked"), None)),
        true,
    )
    .expect_err("yanked");
    assert!(e.message().ends_with(
        "inspect package versions before launching this profile"
    ));
    let notes = enforce_official_pack_status(
        &agent_pack(),
        "1.0.0",
        &Some(status(Some("outdated"), Some("2.0.0"))),
        false,
    )
    .expect("notes");
    assert_eq!(notes.len(), 2);
    assert_eq!(
        notes[1],
        "  [nono] update with: nono pull always-further/agent@2.0.0 --force"
    );
    assert!(enforce_official_pack_status(&agent_pack(), "1", &None, false).expect("ok").is_empty());
    assert_eq!(status_registry(&lockfile(&[])), None);
}

#[test]
fn refresh_helper_args_round_trip() {
    let stale = vec![
        ("always-further/agent".to_string(), "1.0.0".to_string()),
        ("always-further/codex".to_string(), "2.3.4".to_string()),
    ];

    let args = refresh_helper_args(&stale);

    assert_eq!(parse_refresh_helper_args(args), Some(stale));
}

#[test]
fn refresh_helper_args_reject_odd_values() {
    assert!(parse_refresh_helper_args(vec!["always-further/agent".to_string()]).is_none());
}

#[test]
fn pack_hint_env_var_opts_out() {
    assert!(is_opted_out(true, false, None));
    assert!(is_opted_out(false, true, None));
    assert!(is_opted_out(false, false, Some(false)));
    assert!(!is_opted_out(false, false, Some(true)));
    assert!(run_refresh_helper(vec![s("a/b"), s("1")], true).is_none());
    assert!(run_refresh_helper(Vec::new(), false).is_none());
    assert_eq!(
        run_refresh_helper(vec![s("a/b"), s("1")], false),
        Some(vec![(s("a/b"), s("1"))])
    );
}

#[test]
fn newer_releases() {
    assert!(is_newer("1.2.3", "v1.10.0"));
    assert!(!is_newer("1.2.3", "1.2.3"));
    assert!(!is_newer("1.2.3", "garbage"));
    assert!(is_newer("legacy", "1.0.0"));
    assert!(!is_newer("2.0.0", "1.9.9"));
}

#[test]
fn hints_come_from_fresh_entries() {
    let mut state = PackHintsState { entries: Vec::new() };
    record_status(&mut state, "acme/tool", "1.0.0", Some(s("1.1.0")), "2026-03-01T00:00:00Z");
    record_status(&mut state, "acme/old", "1.0.0", Some(s("3.0.0")), "2026-02-01T00:00:00Z");
    record_status(&mut state, "no reference", "1", None, "2026-03-01T00:00:00Z");
    assert_eq!(state.entries.len(), 2);
    let packs = vec![
        (s("acme/tool"), s("1.0.0")),
        (s("acme/old"), s("1.0.0")),
        (s("acme/new"), s("1.0.0")),
    ];
    let (hints, stale) = classify_packs(&packs, &state, "2026-03-01T23:59:59Z");
    assert_eq!(hints, vec![(s("acme/tool"), s("1.0.0"), s("1.1.0"))]);
    assert_eq!(stale, vec![packs[1].clone(), packs[2].clone()]);
    let (hints, stale) = classify_packs(&packs, &state, "2026-03-02T00:00:00Z");
    assert!(hints.is_empty());
    assert_eq!(stale.len(), 3);
    assert_eq!(hints_after_refresh(&stale, &state).len(), 2);
    let lines = print_hints(&hints_after_refresh(&stale, &state)).plain_lines();
    assert_eq!(lines[0], "  update available acme/tool  1.0.0 → 1.1.0  run: nono update");
    assert_eq!(lines.len(), 3);
}

#[test]
fn unreadable_times_are_stale() {
    let state = PackHintsState {
        entries: vec![(
            s("a/b"),
            PackHintEntry {
                last_check: s("yesterday"),
                installed_at_check: s("1.0.0"),
                latest: Some(s("2.0.0")),
            },
        )],
    };
    let (hints, stale) = classify_packs(&vec![(s("a/b"), s("1.0.0"))], &state, "2026-03-01T00:00:00Z");
    assert!(hints.is_empty());
    assert_eq!(stale.len(), 1);
}

#[test]
fn one_unreadable_time_spoils_what_was_kept() {
    let kept = |second: &str| {
        let mut state = PackHintsState { entries: Vec::new() };
        record_status(&mut state, "a/b", "1.0.0", Some(s("2.0.0")), "2026-03-01T00:00:00Z");
        record_status(&mut state, "a/c", "1.0.0", Some(s("2.0.0")), second);
        state
    };
    assert_eq!(load_state(kept("2026-03-01T00:00:00+02:00")).entries.len(), 2);
    assert!(load_state(kept("yesterday")).entries.is_empty());
}

#[test]
fn packs_of_a_profile() {
    let table = vec![(s("mine"), vec![s("agent"), s("other")])];
    let providers = vec![(s("agent"), s("always-further/agent")), (s("other"), s("x/y"))];
    let l = lockfile(&[("always-further/agent", "1.2.3")]);
    assert_eq!(
        collect_profile_packs(&table, "mine", &providers, &l),
        vec![(s("always-further/agent"), s("1.2.3"))]
    );
}

#[test]
fn registry_ref_skips_migration() {
    assert!(is_path_or_registry_ref("always-further/agent"));
    assert!(is_path_or_registry_ref("./local.json"));
    assert!(is_path_or_registry_ref("path/to/profile.json"));
    assert!(!is_path_or_registry_ref("agent-code"));
    assert!(!is_path_or_registry_ref("my-profile"));
}

#[test]
fn env_flag_recognises_truthy_values() {
    assert!(env_flag(&Some("1".to_string())));
    assert!(env_flag(&Some("yes".to_string())));
}

#[test]
fn env_flag_rejects_other_values() {
    assert!(!env_flag(&Some("0".to_string())));
    assert!(!env_flag(&None));
}

#[test]
fn official_packs_cover_marquee_profiles() {
    let rows = official_packs(&agent());
    assert_eq!(rows.len(), 3);
    assert_eq!(rows[0].description.as_deref(), Some("Anthropic Agent Code sandbox profile + plugin"));
    assert_eq!(
        rows[2].installs_summary.as_deref(),
        Some("sandbox profile + Codex plugin (hooks, skill)")
    );
    assert!(official_pack_for(&official_packs(&agent()), "agent").is_some());
    assert!(official_pack_for(&official_packs(&agent()), "agent-code").is_some());
    assert!(official_pack_for(&official_packs(&agent()), "codex").is_some());
    assert!(official_pack_for(&official_packs(&agent()), "definitely-not-real").is_none());
}

#[test]
fn legacy_claude_code_routes_to_renamed_claude_pack() {
    let canonical = official_pack_for(&official_packs(&agent()), "agent").expect("agent").as_provider();
    let legacy = official_pack_for(&official_packs(&agent()), "agent-code").expect("agent-code").as_provider();
    assert_eq!(canonical.pack_ref(), legacy.pack_ref());
    assert_eq!(canonical.pack_ref(), "always-further/agent");
}

#[test]
fn migration_decisions() {
    assert_eq!(migration_precheck("a/b", true), Some(MigrationOutcome::NotApplicable));
    assert_eq!(migration_precheck("x", true), Some(MigrationOutcome::Skipped));
    assert_eq!(migration_precheck("x", false), None);
    assert_eq!(migration_step(true, false), MigrationStep::Install);
    assert_eq!(migration_step(false, true), MigrationStep::Ask);
    assert_eq!(migration_step(false, false), MigrationStep::CannotAsk);
    let community = ProfileProvider {
        namespace: s("c"),
        name: s("d"),
        description: None,
        installs_summary: None,
    };
    let p = choose_provider(&official_packs(&agent()), "agent", Some(vec![community])).expect("official");
    assert_eq!(p.pack_ref(), "always-further/agent");
    assert!(is_hook_pack(&p, &agent()));
    assert!(!is_hook_pack(&p, &AgentNames { pack: s("other"), product: s("Other") }));
    assert!(choose_provider(&official_packs(&agent()), "x", None).is_none());
    assert!(choose_provider(&official_packs(&agent()), "x", Some(Vec::new())).is_none());
    assert!(is_install_confirmed("\n"));
    assert!(is_install_confirmed(" Y "));
    assert!(!is_install_confirmed("no"));
    let question = confirm_pull("agent", &p).plain_lines();
    assert!(question[1].contains("Install always-further/agent?"));
    assert_eq!(
        emit_skipped_hint(&p, SkipReason::Declined).plain_lines()[1],
        "  install skipped — install later with: nono pull always-further/agent"
    );
    assert_eq!(emit_skipped_hint(&p, SkipReason::NonInteractive).plain_lines().len(), 6);
}

#[test]
fn pull_responses() {
    let r = reference("acme/tool");
    assert!(validate_pull_response(&r, &pull(&["package.json", "a/b.md"])).is_ok());
    assert!(validate_pull_response(&reference("acme/other"), &pull(&["x"]))
        .expect_err("other pack")
        .message()
        .contains("registry returned acme / tool for requested package acme/other"));
    assert_eq!(
        validate_pull_response(&r, &pull(&[])).expect_err("empty").message(),
        "pull response did not include any artifacts"
    );
    assert_eq!(
        validate_pull_response(&r, &pull(&["a", "a"])).expect_err("twice").message(),
        "pull response includes duplicate artifact 'a'"
    );
    assert_eq!(
        validate_pull_response(&r, &pull(&["/etc/x"])).expect_err("absolute").message(),
        "artifact path must be relative, got '/etc/x'"
    );
    assert_eq!(
        validate_relative_path("a/../../b").expect_err("up").message(),
        "artifact path contains '..': 'a/../../b'"
    );
    assert!(validate_relative_path("a/..b/c").is_ok());
    assert_eq!(requested_version(&r), "latest");
    assert_eq!(requested_version(&reference("a/b@2")), "2");
}

#[test]
fn downloads_must_match_and_be_signed() {
    let r = reference("acme/tool");
    let p = pull(&["a"]);
    let subjects = vec![(s("a"), s("aa"))];
    assert!(verify_download(&r, &p.artifacts[0], "aa", &subjects).is_ok());
    assert_eq!(
        verify_download(&r, &p.artifacts[0], "bb", &subjects).expect_err("mismatch").message(),
        "artifact a digest mismatch: registry=aa, local=bb"
    );
    assert_eq!(
        verify_download(&r, &p.artifacts[0], "aa", &Vec::new()).expect_err("unsigned").message(),
        "artifact a digest not found in bundle subjects"
    );
    assert_eq!(first_subject_digest(&r, &subjects).expect("digest"), "aa");
    assert!(first_subject_digest(&r, &Vec::new()).is_err());
}

#[test]
fn signers() {
    let r = reference("acme/tool");
    let keyless = SignerIdentity::Keyless {
        repository: s("acme/tool"),
        workflow: s("w.yml"),
        git_ref: s("refs/tags/v1"),
    };
    assert!(enforce_namespace_assertion(&r, &keyless).is_ok());
    assert!(enforce_namespace_assertion(&reference("evil/tool"), &keyless).is_err());
    assert!(enforce_namespace_assertion(&r, &SignerIdentity::Keyed { key_id: s("k") }).is_err());
    assert_eq!(
        signer_identity_uri(&keyless),
        "https://github.com/acme/tool/w.yml@refs/tags/v1"
    );
    assert_eq!(signer_identity_uri(&SignerIdentity::Keyed { key_id: s("k") }), "keyed:k");
    assert_eq!(canonical_signer_identity("a@b@c"), "a@b");
    assert_eq!(canonical_signer_identity("keyed:k"), "keyed:k");

    let mut l = lockfile(&[("acme/tool", "1")]);
    l.packages[0].1.provenance = Some(PackageProvenance {
        signer_identity: s("https://github.com/acme/tool/w.yml@refs/tags/v0"),
        repository: s("acme/tool"),
        workflow: s("w.yml"),
        git_ref: s("refs/tags/v0"),
        rekor_log_index: 0,
        signed_at: s("now"),
    });
    assert!(enforce_signer_pinning(&l, &r, &signer_identity_uri(&keyless), false).is_ok());
    assert!(enforce_signer_pinning(&l, &r, "https://github.com/evil/x@y", false).is_err());
    assert!(enforce_signer_pinning(&l, &r, "https://github.com/evil/x@y", true).is_ok());
}

fn artifact(kind: ArtifactType, path: &str) -> ArtifactEntry {
    ArtifactEntry {
        artifact_type: kind,
        path: s(path),
        install_as: None,
        placement: None,
        prefix: None,
        aliases: Vec::new(),
    }
}

fn files(names: &[&str]) -> Vec<(String, FileContents)> {
    names.iter().map(|n| (s(n), FileContents { readable: Ok(()), groups: Vec::new() })).collect()
}

fn manifest(artifacts: Vec<ArtifactEntry>) -> PackageManifest {
    PackageManifest {
        schema_version: 1,
        name: s("tool"),
        version: None,
        description: None,
        license: None,
        platforms: Vec::new(),
        min_nono_version: None,
        artifacts,
        wiring: Vec::new(),
    }
}

#[test]
fn manifests_are_checked() {
    let mut m = manifest(Vec::new());
    assert!(validate_manifest(&m, "linux", "0.50.0").is_ok());
    m.platforms = vec![s("macos")];
    assert_eq!(
        validate_manifest(&m, "linux", "0.50.0").expect_err("platform").message(),
        "package does not support linux"
    );
    m.platforms.push(s("linux"));
    m.min_nono_version = Some(s("0.51.0"));
    assert_eq!(
        validate_manifest(&m, "linux", "0.50.0").expect_err("version").message(),
        "package requires nono >= 0.51.0, current version is 0.50.0"
    );
    m.min_nono_version = Some(s("0.50.0"));
    assert!(validate_manifest(&m, "linux", "0.50.0").is_ok());
}

#[test]
fn install_plans() {
    let mut profile = artifact(ArtifactType::Profile, "p.profile.json");
    profile.install_as = Some(s("tool"));
    let mut notes = artifact(ArtifactType::Instruction, "docs/NOTES.md");
    notes.placement = Some(s("project"));
    let m = manifest(vec![profile, notes, artifact(ArtifactType::Plugin, "x/bin/run")]);
    let names = files(&["p.profile.json", "docs/NOTES.md", "x/bin/run"]);
    let none = Vec::new();
    let steps = install_package(&m, &names, &none, true).expect("plan");
    assert_eq!(steps[0].target.path, "profiles/tool.json");
    assert_eq!(steps[1].target.path, "instructions/NOTES.md");
    assert_eq!(steps[1].project_name.as_deref(), Some("NOTES.md"));
    assert_eq!(steps[2].target.path, "x/bin/run");
    assert!(steps[2].target.executable);
    assert!(install_package(&m, &names, &none, false).expect("plan")[1].project_name.is_none());
    assert_eq!(
        install_package(&m, &Vec::new(), &none, true).expect_err("missing").message(),
        "manifest references missing artifact 'p.profile.json'"
    );
    let bad = manifest(vec![artifact(ArtifactType::Profile, "a")]);
    assert_eq!(
        install_package(&bad, &files(&["a"]), &none, false).expect_err("no name").message(),
        "profile artifact 'a' is missing install_as"
    );
    assert!(validate_safe_name("../x", "install_as").is_err());
    assert!(validate_safe_name("tool", "install_as").is_ok());
    let unprefixed = manifest(vec![artifact(ArtifactType::Groups, "g")]);
    assert!(install_package(&unprefixed, &files(&["g"]), &none, false).is_err());
    let trust = manifest(vec![artifact(ArtifactType::TrustPolicy, "t")]);
    assert!(install_package(&trust, &files(&["t"]), &none, false).is_ok());
    let mut unreadable = files(&["t"]);
    unreadable[0].1.readable = Err(nono_cli::error::NonoError::ConfigParse(s("no policy")));
    assert_eq!(
        install_package(&trust, &unreadable, &none, false).expect_err("unreadable").message(),
        "no policy"
    );
    let mut entry = artifact(ArtifactType::Groups, "g");
    entry.prefix = Some(s("acme_"));
    let prefixed = manifest(vec![entry]);
    let mut groups = files(&["g"]);
    groups[0].1.groups = vec![s("acme_x")];
    assert!(install_package(&prefixed, &groups, &none, false).is_ok());
    assert!(install_package(&prefixed, &groups, &vec![s("acme_x")], false).is_err());
    groups[0].1.groups.push(s("other"));
    assert_eq!(
        install_package(&prefixed, &groups, &none, false).expect_err("prefix").message(),
        "group 'other' does not start with required prefix 'acme_'"
    );
}

#[test]
fn groups_need_their_prefix() {
    let embedded = vec![s("acme_core")];
    assert!(validate_groups(&vec![s("acme_x")], "acme_", &embedded).is_ok());
    assert!(validate_groups(&vec![s("other")], "acme_", &embedded).is_err());
    assert_eq!(
        validate_groups(&vec![s("acme_core")], "acme_", &embedded).expect_err("taken").message(),
        "group 'acme_core' collides with an embedded policy group"
    );
}

#[test]
fn lockfiles_record_what_was_installed() {
    let mut l = lockfile(&[("a/a", "1"), ("acme/tool", "1.0.0"), ("z/z", "1")]);
    l.packages[1].1.pinned = true;
    let downloads = vec![
        DownloadedArtifact { filename: s("package.json"), sha256_digest: s("00") },
        DownloadedArtifact { filename: s("b.md"), sha256_digest: s("22") },
        DownloadedArtifact { filename: s("a.profile.json"), sha256_digest: s("11") },
    ];
    update_lockfile(
        &mut l,
        &reference("acme/tool"),
        "https://registry",
        &pull(&["x"]),
        "signer",
        &downloads,
        vec![WiringRecord::WriteFile { dest: s("/d"), sha256: s("33") }],
        "2026-05-05T00:00:00+00:00",
    );
    assert_eq!(l.packages.len(), 3);
    let p = &l.packages[1].1;
    assert!(p.pinned);
    assert_eq!(p.version, "1.2.3");
    assert_eq!(p.artifacts.len(), 2);
    assert_eq!(p.artifacts[0].0, "a.profile.json");
    assert_eq!(p.artifacts[0].1.artifact_type, ArtifactType::Profile);
    assert_eq!(p.artifacts[1].1.artifact_type, ArtifactType::Instruction);
    let provenance = p.provenance.as_ref().expect("provenance");
    assert_eq!(provenance.rekor_log_index, u64::MAX);
    assert_eq!(provenance.signed_at, "2026-05-05T00:00:00+00:00");
    assert_eq!(
        pack_owned_write_file_paths(&l, &reference("acme/tool")),
        vec![(s("/d"), s("33"))]
    );
    assert_eq!(
        already_installed(&l, &reference("acme/tool"), "1.2.3", false).as_deref(),
        Some("  acme/tool is already at 1.2.3 (use --force to reinstall)")
    );
    assert_eq!(already_installed(&l, &reference("acme/tool"), "1.2.3", true), None);
    assert_eq!(infer_artifact_type("groups.json"), ArtifactType::Groups);
    assert_eq!(infer_artifact_type("trust-policy.json"), ArtifactType::TrustPolicy);
    assert_eq!(infer_artifact_type("x.sh"), ArtifactType::Plugin);
    assert_eq!(find_manifest(&downloads).expect("manifest"), 0);
    assert!(find_manifest(&Vec::new()).is_err());
    match trust_bundle(&downloads, &Json::Object(vec![(s("k"), Json::Array(vec![Json::Null]))])) {
        Json::Array(v) => assert_eq!(v.len(), 3),
        other => panic!("unexpected {other:?}"),
    }
}

#[test]
fn reinstalling_and_removing() {
    let r = reference("acme/tool");
    assert!(check_repull(&r, 0).is_ok());
    assert!(check_repull(&r, 2).expect_err("failed").message().contains("2 prior wiring"));
    assert!(check_removable(&r, false, true).is_ok());
    assert_eq!(
        check_removable(&r, false, false).expect_err("absent").message(),
        "package acme/tool is not installed"
    );
    let report = reversal_report(3, 1, true);
    assert_eq!(report.summary, "  reversed 2/3 wiring directive(s)");
    assert!(report.forced.is_some());
    assert!(check_reversal(&r, 1, true).is_ok());
    assert!(check_reversal(&r, 1, false).is_err());
    assert!(offers_legacy_cleanup(&reference("always-further/agent"), &agent()));
    assert!(!offers_legacy_cleanup(&reference("someone/agent"), &agent()));
    assert!(!offers_legacy_cleanup(&r, &agent()));
}

#[test]
fn pinning() {
    let mut l = lockfile(&[("acme/tool", "1.0.0")]);
    assert_eq!(
        run_pin(&mut l, "acme/tool").expect("pin"),
        "  pinned acme/tool@1.0.0 — excluded from nono update"
    );
    assert!(l.packages[0].1.pinned);
    assert!(run_pin(&mut l, "acme/tool@1").is_err());
    assert_eq!(
        run_pin(&mut l, "x/y").expect_err("absent").message(),
        "x/y is not installed"
    );
    assert!(run_unpin(&mut l, "acme/tool").is_ok());
    assert!(!l.packages[0].1.pinned);
}

#[test]
fn updating() {
    let l = lockfile(&[("a/b", "1"), ("c/d", "2")]);
    assert_eq!(update_keys(&l, &None).expect("all"), vec!["a/b", "c/d"]);
    assert_eq!(update_keys(&l, &Some(s("c/d"))).expect("one"), vec!["c/d"]);
    assert!(update_keys(&l, &Some(s("c/d@2"))).is_err());
    assert!(update_keys(&l, &Some(s("x/y"))).is_err());

    let mut t = UpdateTally::new();
    assert!(matches!(t.before_status("nokey", "1", false, false), UpdateCheck::Malformed(_)));
    assert!(matches!(t.before_status("a/b", "1", true, false), UpdateCheck::Pinned(_)));
    match t.before_status("a/b", "1", true, true) {
        UpdateCheck::Ask { namespace, name } => {
            assert_eq!((namespace.as_str(), name.as_str()), ("a", "b"));
        }
        other => panic!("unexpected {other:?}"),
    }
    let (fate, lines) = t.on_status("a/b", "1", false, &Ok(status(Some("current"), None)), false);
    assert_eq!(fate, UpdateFate::Skipped);
    assert_eq!(lines, vec!["  a/b 1 — up to date"]);
    let (fate, _) = t.on_status("a/b", "1", false, &Ok(status(Some("ahead"), None)), false);
    assert_eq!(fate, UpdateFate::Skipped);
    let (fate, _) = t.on_status("a/b", "1", false, &Ok(status(Some("yanked"), None)), false);
    assert_eq!(fate, UpdateFate::Failed);
    let (fate, _) = t.on_status("a/b", "1", false, &Err(s("offline")), false);
    assert_eq!(fate, UpdateFate::Failed);
    let (fate, lines) = t.on_status("a/b", "1", true, &Ok(status(None, Some("2"))), false);
    assert_eq!(fate, UpdateFate::Pulling);
    assert_eq!(lines.len(), 2);
    assert_eq!(lines[1], "  updating a/b 1 → 2");
    assert_eq!(t.on_pull("a/b", &Ok(())), None);
    assert_eq!(t.on_pull("a/b", &Err(s("no"))).as_deref(), Some("  failed to update a/b: no"));
    assert_eq!(t.summary(false), "\n  1 updated, 3 skipped, 3 failed");
    assert_eq!(t.summary(true), "\n  dry run: 1 would be updated, 3 skipped");
    assert_eq!(t.verdict(false).expect_err("failed").message(), "3 pack(s) failed to update");
    assert!(t.verdict(true).is_ok());
    let (fate, lines) = t.on_status("a/b", "1", false, &Ok(status(None, None)), true);
    assert_eq!(fate, UpdateFate::Updated);
    assert_eq!(lines, vec!["  a/b 1 → latest (dry run)"]);
}

#[test]
fn outdated_packs() {
    let current = outdated_entry("a/b", &locked("1"), &Ok(status(Some("current"), Some("1"))));
    assert_eq!(
        outdated_report(&vec![current]),
        vec!["All installed packs are up to date."]
    );
    let mut p = locked("1");
    p.pinned = true;
    let unknown = outdated_entry("a/b", &p, &Err(s("offline")));
    let report = outdated_report(&vec![unknown]);
    assert_eq!(report.len(), 2);
    assert!(report[1].starts_with("a/b  "));
    assert!(report[1].ends_with("-            unknown (pinned)"));
    match outdated_to_json(&Vec::new()) {
        Json::Array(v) => assert!(v.is_empty()),
        other => panic!("unexpected {other:?}"),
    }
}

#[test]
fn listing_and_searching() {
    assert_eq!(run_list(&lockfile(&[]), &Vec::new()), vec!["No installed nono packs."]);
    assert_eq!(run_list(&lockfile(&[("a/b", "1")]), &vec![s("today")]), vec!["a/b\t1\ttoday"]);
    assert_eq!(run_search(&Vec::new()), vec!["No nono packs found."]);
    let found = PackageSearchResult {
        namespace: s("a"),
        name: s("b"),
        description: None,
        latest_version: None,
    };
    assert_eq!(run_search(&vec![found]), vec!["a/b\t-\t"]);
}

fn disk(files: Vec<(String, FileOnDisk)>) -> PackOnDisk {
    PackOnDisk { installed: Ok(true), files, bundle: None }
}

#[test]
fn installed_files_are_compared_with_the_lockfile() {
    let mut l = lockfile(&[("a/b", "1")]);
    l.packages[0].1.artifacts =
        vec![(s("f"), LockedArtifact { sha256: sha256_hex(b"content"), artifact_type: ArtifactType::Plugin })];
    let packs = vec![s("a/b")];
    let good = vec![disk(vec![(s("f"), FileOnDisk::Present(b"content".to_vec()))])];
    assert!(verify_profile_packs(&packs, &l, &good).is_ok());
    let bad = vec![disk(vec![(s("f"), FileOnDisk::Present(b"other".to_vec()))])];
    assert!(verify_profile_packs(&packs, &l, &bad)
        .expect_err("tampered")
        .message()
        .contains("has been tampered with"));
    let gone = vec![disk(Vec::new())];
    assert!(verify_profile_packs(&packs, &l, &gone)
        .expect_err("missing")
        .message()
        .contains("is missing artifact 'f'"));
    let unreadable = vec![disk(vec![(s("f"), FileOnDisk::Unreadable(s("io")))])];
    assert!(verify_profile_packs(&packs, &l, &unreadable).is_err());
    let absent = vec![PackOnDisk { installed: Ok(false), files: Vec::new(), bundle: None }];
    assert_eq!(
        verify_profile_packs(&packs, &l, &absent).expect_err("absent").message(),
        "Pack 'a/b' declared by profile but not installed. Install it with: nono pull a/b"
    );
    assert!(verify_profile_packs(&vec![s("broken")], &l, &good).is_err());
}

#[test]
fn bundles_are_held_to_the_pinned_signer() {
    let entry = |signer: &str| BundleEntry {
        artifact: Some(s("f")),
        has_bundle: true,
        present: true,
        readable: Ok(()),
        loaded: Ok(()),
        verified: Ok(()),
        signer: Ok(SignerIdentity::Keyless {
            repository: s(signer),
            workflow: s("w"),
            git_ref: s("v2"),
        }),
    };
    let on_disk = |signer: &str| {
        vec![PackOnDisk {
            installed: Ok(true),
            files: Vec::new(),
            bundle: Some(BundleFile::Entries(vec![entry(signer)])),
        }]
    };
    let packs = vec![s("a/b")];
    assert!(verify_profile_packs(&packs, &lockfile(&[]), &on_disk("a/b"))
        .expect_err("no entry")
        .message()
        .contains("no lockfile entry"));
    let mut l = lockfile(&[("a/b", "1")]);
    assert!(verify_profile_packs(&packs, &l, &on_disk("a/b"))
        .expect_err("no signer")
        .message()
        .contains("no signer identity"));
    l.packages[0].1.provenance = Some(PackageProvenance {
        signer_identity: s("https://github.com/a/b/w@v1"),
        repository: s("a/b"),
        workflow: s("w"),
        git_ref: s("v1"),
        rekor_log_index: 0,
        signed_at: s("t"),
    });
    assert!(verify_profile_packs(&packs, &l, &on_disk("a/b")).is_ok());
    assert!(verify_profile_packs(&packs, &l, &on_disk("evil/b"))
        .expect_err("other signer")
        .message()
        .contains("signer identity mismatch for 'f'"));
}

#[test]
fn packs_to_check() {
    assert_eq!(packs_to_verify(&vec![s("a/b")], "a/b@2", true), vec!["a/b"]);
    assert_eq!(packs_to_verify(&Vec::new(), "a/b@2", true), vec!["a/b"]);
    assert!(packs_to_verify(&Vec::new(), "plain", false).is_empty());
    assert_eq!(verified_line(2, false).as_deref(), Some("  Verified 2 pack(s)"));
    assert_eq!(verified_line(2, true), None);
}

#[test]
fn digests() {
    assert_eq!(
        sha256_hex(b""),
        "e3b0c44298fc1c149afbf4c8996fb92427ae41e4649b934ca495991b7852b855"
    );
}

fn owner() -> SignerIdentity {
    SignerIdentity::Keyless {
        repository: s("acme/tool"),
        workflow: s("w.yml"),
        git_ref: s("refs/tags/v2"),
    }
}

fn downloads(digests: Vec<&str>) -> DownloadFacts {
    DownloadFacts {
        subjects: vec![(s("a"), s("aa"))],
        signature: Ok(()),
        signer: Ok(owner()),
        digests: digests.into_iter().map(|d| Ok(s(d))).collect(),
    }
}

#[test]
fn releases_are_trusted_as_a_whole() {
    let r = reference("acme/tool");
    let p = pull(&["package.json", "b"]);
    let files = download_and_verify_artifacts(&r, &p, &downloads(vec!["aa", "aa"])).expect("trusted");
    assert_eq!(files.len(), 2);
    assert_eq!(files[1].filename, "b");
    assert_eq!(files[1].sha256_digest, "aa");
    assert!(download_and_verify_artifacts(&r, &p, &downloads(vec!["aa", "bb"]))
        .expect_err("second file")
        .message()
        .contains("artifact b digest mismatch"));
    let unsigned = DownloadFacts { subjects: vec![], ..downloads(vec!["aa", "aa"]) };
    assert!(download_and_verify_artifacts(&r, &p, &unsigned).is_err());
    let forged = DownloadFacts {
        signature: Err(nono_cli::error::NonoError::ConfigParse(s("bad signature"))),
        ..downloads(vec!["aa", "aa"])
    };
    assert_eq!(
        download_and_verify_artifacts(&r, &p, &forged).expect_err("forged").message(),
        "bad signature"
    );
    let stranger = reference("other/tool");
    assert!(download_and_verify_artifacts(&stranger, &p, &downloads(vec!["aa", "aa"])).is_err());
}

#[test]
fn requests_go_step_by_step() {
    let r = reference("acme/tool");
    let p = pull(&["package.json"]);
    let mut l = lockfile(&[("acme/tool", "1.2.3")]);
    assert!(matches!(run_pull(&r, &p, &l, false), Ok(PullStep::AlreadyInstalled(_))));
    assert!(matches!(run_pull(&r, &p, &l, true), Ok(PullStep::Download)));
    assert!(run_pull(&r, &pull(&[]), &l, true).is_err());

    let m = manifest(Vec::new());
    let order = admit_release(&r, &l, &owner(), &m, "linux", "0.50.0", false).expect("admitted");
    assert!(!order.reverse_prior);
    assert_eq!(order.signer, "https://github.com/acme/tool/w.yml@refs/tags/v2");
    l.packages[0].1.wiring_record = vec![WiringRecord::Other { text: s("{}") }];
    assert!(admit_release(&r, &l, &owner(), &m, "linux", "0.50.0", false).expect("ok").reverse_prior);
    l.packages[0].1.provenance = Some(PackageProvenance {
        signer_identity: s("https://github.com/evil/tool/w.yml@refs/tags/v1"),
        repository: s("evil/tool"),
        workflow: s("w.yml"),
        git_ref: s("refs/tags/v1"),
        rekor_log_index: 0,
        signed_at: s("t"),
    });
    assert!(admit_release(&r, &l, &owner(), &m, "linux", "0.50.0", false)
        .expect_err("other signer")
        .message()
        .contains("signer identity changed"));
    assert!(admit_release(&r, &l, &owner(), &m, "linux", "0.50.0", true).is_ok());
}

#[test]
fn only_installed_packs_can_be_listed() {
    assert!(check_list_request(true).is_ok());
    assert_eq!(
        check_list_request(false).expect_err("all").message(),
        "only `nono list --installed` is currently supported"
    );
}

#[test]
fn requests_for_missing_profiles() {
    let packs = official_packs(&agent());
    let community = || {
        Some(vec![ProfileProvider {
            namespace: s("c"),
            name: s("d"),
            description: None,
            installs_summary: None,
        }])
    };
    let plan = |name: &str, off: bool, auto: bool, interactive: bool| {
        check_and_run(&packs, name, off, community(), auto, interactive)
    };
    assert!(matches!(
        plan("a/b", false, true, true),
        MigrationPlan::Done(MigrationOutcome::NotApplicable)
    ));
    assert!(matches!(plan("x", true, true, true), MigrationPlan::Done(MigrationOutcome::Skipped)));
    assert!(matches!(plan("codex", false, false, true), MigrationPlan::Ask(p) if p.name == "codex"));
    assert!(matches!(plan("x", false, true, false), MigrationPlan::Install(p) if p.name == "d"));
    assert!(matches!(plan("x", false, false, false), MigrationPlan::CannotAsk(_)));
    assert!(matches!(
        check_and_run(&packs, "x", false, None, true, true),
        MigrationPlan::Done(MigrationOutcome::NotApplicable)
    ));
}

#[test]
fn what_is_unknown_is_found_out() {
    let packs = vec![(s("acme/tool"), s("1.0.0"))];
    let empty = PackHintsState { entries: Vec::new() };
    let now = "2026-03-01T00:00:00Z";
    let plan = show_pack_update_hints(&packs, &empty, false, now, false, false);
    assert_eq!(plan.refresh, Refresh::Now);
    assert_eq!(plan.stale, packs);
    assert_eq!(
        show_pack_update_hints(&packs, &empty, true, now, false, false).refresh,
        Refresh::Later
    );
    assert_eq!(
        show_pack_update_hints(&packs, &empty, false, now, true, false).refresh,
        Refresh::Nothing
    );
    let mut known = PackHintsState { entries: Vec::new() };
    record_status(&mut known, "acme/tool", "1.0.0", Some(s("1.1.0")), now);
    let plan = show_pack_update_hints(&packs, &known, true, now, false, false);
    assert_eq!(plan.refresh, Refresh::Nothing);
    assert_eq!(plan.hints.len(), 1);
}

#[test]
fn removals_that_fail_change_nothing() {
    let mut l = lockfile(&[("a/a", "1"), ("b/b", "2")]);
    l.packages[1].1.wiring_record = vec![WiringRecord::Other { text: s("{}") }];
    let (report, outcome) = run_remove(&mut l, "b/b", true, 1, false);
    assert_eq!(report.expect("report").summary, "  reversed 0/1 wiring directive(s)");
    assert!(outcome.is_err());
    assert_eq!(l.packages.len(), 2);
    let (report, outcome) = run_remove(&mut l, "b/b", true, 1, true);
    assert!(report.expect("report").forced.is_some());
    assert_eq!(outcome.expect("removed"), "Removed b/b");
    assert_eq!(l.packages.len(), 1);
    let (report, outcome) = run_remove(&mut l, "c/c", false, 0, true);
    assert!(report.is_none());
    assert_eq!(outcome.expect_err("absent").message(), "package c/c is not installed");
    assert!(run_remove(&mut l, "broken", true, 0, true).1.is_err());
}

#[test]
fn updates_as_a_whole() {
    let answer = |word: &str, pull: Result<(), String>| UpdateAnswer {
        status: Ok(status(Some(word), Some("2"))),
        pull,
    };
    let mut l = lockfile(&[("a/a", "1"), ("b/b", "1"), ("c/c", "1"), ("odd", "1")]);
    l.packages[2].1.pinned = true;
    let answers = || {
        vec![
            answer("outdated", Ok(())),
            answer("outdated", Err(s("no network"))),
            answer("outdated", Ok(())),
            answer("outdated", Ok(())),
        ]
    };
    let run = run_update(&l, &None, &answers(), false, false);
    assert_eq!((run.tally.updated, run.tally.skipped, run.tally.failed), (1, 1, 1));
    assert_eq!(
        run.lines,
        vec![
            "  updating a/a 1 → 2",
            "  updating b/b 1 → 2",
            "  failed to update b/b: no network",
            "  c/c@1 pinned — skipped (use --force to update pinned packs)",
            "  warning: skipping malformed lockfile key 'odd'",
            "\n  1 updated, 1 skipped, 1 failed",
        ]
    );
    assert_eq!(run.outcome.expect_err("one failed").message(), "1 pack(s) failed to update");
    let run = run_update(&l, &Some(s("c/c")), &answers(), true, false);
    assert!(run.outcome.is_ok());
    assert_eq!(run.lines[0], "  c/c@1 is pinned — updating anyway (--force)");
    assert!(run_update(&l, &Some(s("x/y")), &answers(), true, false).outcome.is_err());
    let none = run_update(&lockfile(&[]), &None, &vec![], false, false);
    assert_eq!(none.lines, vec!["No installed nono packs."]);
}

#[test]
fn outdated_as_a_whole() {
    let l = lockfile(&[("a/a", "1"), ("b/b", "1"), ("odd", "1")]);
    let statuses =
        vec![Ok(status(Some("outdated"), Some("2"))), Err(s("offline")), Err(s("offline"))];
    let scan = run_outdated(&l, &statuses);
    assert_eq!(scan.entries.len(), 2);
    assert_eq!(
        scan.warnings,
        vec![
            "  warning: could not check status for b/b: offline",
            "  warning: skipping malformed lockfile key 'odd'",
        ]
    );
    assert_eq!(outdated_output(&l, &scan).len(), 3);
    let empty = lockfile(&[]);
    assert_eq!(
        outdated_output(&empty, &run_outdated(&empty, &vec![])),
        vec!["No installed nono packs."]
    );
}

#[test]
fn what_follows_a_pull() {
    let failed = || Err(nono_cli::error::NonoError::PackageInstall(s("no network")));
    assert_eq!(after_pull(Ok(()), Ok(())).expect("pulled"), MigrationOutcome::Migrated);
    assert_eq!(after_pull(Ok(()), failed()).expect("pulled"), MigrationOutcome::Migrated);
    assert_eq!(after_pull(failed(), Ok(())).expect_err("failed").message(), "no network");

    let plan = |auto: bool, interactive: bool| {
        check_and_run(&official_packs(&agent()), "codex", false, None, auto, interactive)
    };
    let finish = |auto: bool, interactive: bool, confirmed: bool| {
        finish_migration(&plan(auto, interactive), confirmed, Ok(()), Ok(())).expect("outcome")
    };
    assert_eq!(finish(true, false, false), MigrationOutcome::Migrated);
    assert_eq!(finish(false, true, true), MigrationOutcome::Migrated);
    assert_eq!(finish(false, true, false), MigrationOutcome::Skipped);
    assert_eq!(finish(false, false, true), MigrationOutcome::Skipped);
    assert!(finish_migration(&plan(true, true), true, failed(), Ok(())).is_err());
}

#[test]
fn older_lockfiles_are_not_read() {
    assert!(check_lockfile_version(LOCKFILE_VERSION).is_ok());
    assert_eq!(
        check_lockfile_version(3).expect_err("older").message(),
        "lockfile version 3 is older than 4; pull the packs again"
    );
}
