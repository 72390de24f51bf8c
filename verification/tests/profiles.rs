use nono_cli::digest::{looks_like_hash, sha256_hex};
use nono_cli::error::NonoError;
use nono_cli::extends::walk_bases;
use nono_cli::json::Json;
use nono_cli::policy::{AllowOps, DenyOps, Group};
use nono_cli::profile::{
    CustomCredentialDef, EnvironmentConfig, HookConfig, InjectMode, OpenUrlConfig, Profile,
    WorkdirAccess,
};
use nono_cli::profile_cmd::diff::cmd_diff;
use nono_cli::profile_cmd::diff_json::diff_to_json;
use nono_cli::profile_cmd::groups::{
    cmd_groups_detail, cmd_groups_list, groups_detail_to_json, groups_list_to_json,
};
use nono_cli::profile_cmd::init::{
    build_skeleton, cmd_init, extends_target_not_found_message, profile_exists,
    profile_validate_target, InitFacts, InitPlan, ProfileInitArgs,
};
use nono_cli::profile_cmd::list::{
    bucket_of, cmd_list, list_to_json, profile_source, Bucket, ListedProfile,
};
use nono_cli::profile_cmd::manifest::{
    make_fs_grant, resolve_to_manifest, wider_access, AccessMode, ExecStrategy, FsEntryType,
    GroupAccess, GroupCapability, NetworkMode, Refusals, ResolvedGroups, Surroundings,
};
use nono_cli::profile_cmd::promote::{
    check_promote_request, cmd_promote, print_promote_diff, promote_step, regular_file_exists,
    temporary_file_name, verify_base_hash, FileEntry, PromoteFacts, PromoteStep,
};
use nono_cli::profile_cmd::show::{cmd_show, profile_to_json};
use nono_cli::profile_cmd::validate::{
    check_profile, classify_profile_error, cmd_validate, emit_deprecation_summary, json_form,
    resolve_validate_draft_target, resolve_validate_target, validation_to_json, verdict,
    verdict_failure, Loaded, Verdict,
};
use nono_cli::package::Lockfile;
use nono_cli::profile_runtime::{
    prepare_profile, prepare_profile_for_preflight, CliPaths, Expansion, PackOnDisk,
    PathExpansions, PatternComplaints, RequestedProfile, RunFacts,
};
use nono_cli::report::Style;

fn s(t: &str) -> String {
    t.to_string()
}

fn list(v: &[&str]) -> Vec<String> {
    v.iter().map(|t| s(t)).collect()
}

fn init_args(name: &str) -> ProfileInitArgs {
    ProfileInitArgs {
        name: s(name),
        extends: None,
        groups: vec![],
        description: None,
        full: false,
        force: false,
    }
}

fn facts(output: &str) -> InitFacts {
    InitFacts {
        registry_ref: false,
        output: Ok(s(output)),
        output_exists: false,
        builtin: Ok(list(&["default", "opencode"])),
        base_exists: false,
        groups: list(&["deny_credentials", "system_read"]),
    }
}

fn keys(v: &Json) -> Vec<&str> {
    match v {
        Json::Object(members) => members.iter().map(|(k, _)| k.as_str()).collect(),
        _ => panic!("expected an object"),
    }
}

fn get<'a>(v: &'a Json, key: &str) -> &'a Json {
    match v {
        Json::Object(members) => match members.iter().find(|(k, _)| k == key) {
            Some((_, value)) => value,
            None => panic!("no member {key}"),
        },
        _ => panic!("expected an object"),
    }
}

fn text(v: &Json) -> &str {
    match v {
        Json::Text(t) => t.as_str(),
        _ => panic!("expected a text"),
    }
}

fn items(v: &Json) -> &Vec<Json> {
    match v {
        Json::Array(a) => a,
        _ => panic!("expected an array"),
    }
}

fn refusal(plan: InitPlan) -> NonoError {
    plan.outcome().expect_err("refused")
}

const KNOWN_KEYS: [&str; 19] = [
    "meta", "extends", "groups", "commands", "security", "linux", "filesystem", "network",
    "workdir", "rollback", "env_credentials", "hooks", "open_urls", "environment",
    "allow_launch_services", "allow_gpu", "allow_parent_of_protected",
    "unsafe_macos_seatbelt_rules", "packs",
];

#[test]
fn test_minimal_skeleton_is_valid_profile() {
    let skeleton = build_skeleton(&init_args("test-profile"));
    assert!(keys(&skeleton).iter().all(|k| KNOWN_KEYS.contains(k)));
    assert_eq!(text(get(get(&skeleton, "meta"), "name")), "test-profile");
}

#[test]
fn test_full_skeleton_is_valid_profile() {
    let args = ProfileInitArgs {
        extends: Some("default".to_string()),
        description: Some("A full test profile".to_string()),
        full: true,
        ..init_args("full-test")
    };
    let skeleton = build_skeleton(&args);
    assert!(keys(&skeleton).iter().all(|k| KNOWN_KEYS.contains(k)));
    assert_eq!(text(get(get(&skeleton, "meta"), "name")), "full-test");
    assert_eq!(text(get(&skeleton, "extends")), "default");
    assert_eq!(text(get(get(&skeleton, "meta"), "description")), "A full test profile");
}

#[test]
fn test_skeleton_with_groups() {
    let args = ProfileInitArgs {
        groups: vec!["deny_credentials".to_string()],
        ..init_args("grouped")
    };
    let skeleton = build_skeleton(&args);
    let groups = items(get(get(&skeleton, "groups"), "include"));
    assert_eq!(groups.len(), 1);
    assert_eq!(text(&groups[0]), "deny_credentials");
}

#[test]
fn test_skeleton_omits_schema_url() {
    let skeleton = build_skeleton(&init_args("schema-test"));
    assert!(!keys(&skeleton).contains(&"$schema"));
}

#[test]
fn test_invalid_profile_name() {
    let err = refusal(cmd_init(&init_args("-bad-name-"), &facts("/tmp/nono-test-bad.json")));
    assert!(err.message().contains("Invalid profile name"));
}

#[test]
fn test_invalid_group_name() {
    let args = ProfileInitArgs {
        groups: vec!["nonexistent_group_xyz".to_string()],
        ..init_args("test-profile")
    };
    let err = refusal(cmd_init(&args, &facts("/tmp/nono-test-badgroup.json")));
    assert!(err.message().contains("Unknown security group"));
}

#[test]
fn test_invalid_extends_target() {
    let args = ProfileInitArgs {
        extends: Some("nonexistent-base-profile-xyz".to_string()),
        ..init_args("test-profile")
    };
    let err = refusal(cmd_init(&args, &facts("/tmp/nono-test-badextends.json")));
    assert!(err.message().contains("not found"));
    assert!(extends_target_not_found_message("x").contains("not found"));
}

#[test]
fn test_init_blocked_when_shadowing_builtin() {
    let err = refusal(cmd_init(&init_args("opencode"), &facts("/c/nono/profiles/opencode.json")));
    assert!(matches!(err, NonoError::Cancelled(_)), "expected Cancelled (shadow block), got: {err:?}");
}

#[test]
fn test_init_blocked_with_custom_output_when_shadowing_builtin() {
    let err = refusal(cmd_init(&init_args("opencode"), &facts("/tmp/d/opencode-draft.json")));
    assert!(matches!(err, NonoError::Cancelled(_)), "expected Cancelled (shadow block), got: {err:?}");
}

#[test]
fn test_init_allowed_when_pack_has_same_short_name() {
    let plan = cmd_init(&init_args("my-agent"), &facts("/c/nono/profiles/my-agent.json"));
    assert_eq!(plan.outcome().expect("created"), "/c/nono/profiles/my-agent.json");
}

#[test]
fn profile_validate_target_prefers_name_for_default_user_profile_path() {
    let default_path = Some(s("/c/nono/profiles/copilot.json"));
    assert_eq!(
        profile_validate_target("copilot", &default_path, "/c/nono/profiles/copilot.json"),
        "copilot"
    );
}

#[test]
fn profile_validate_target_uses_path_for_custom_output() {
    let default_path = Some(s("/c/nono/profiles/copilot.json"));
    assert_eq!(
        profile_validate_target("copilot", &default_path, "/tmp/custom-copilot.json"),
        "/tmp/custom-copilot.json"
    );
}

#[test]
fn test_force_overwrite() {
    let out = "/tmp/nono-test-force-overwrite.json";
    let there = InitFacts { output_exists: true, ..facts(out) };
    assert!(matches!(cmd_init(&init_args("test-profile"), &there), InitPlan::Refuse(_)));
    let args = ProfileInitArgs { force: true, ..init_args("test-profile") };
    assert!(matches!(cmd_init(&args, &there), InitPlan::Create(p) if p == out));
    assert_eq!(text(get(get(&build_skeleton(&args), "meta"), "name")), "test-profile");
}

#[test]
fn references_are_no_names() {
    let f = InitFacts { registry_ref: true, ..facts("/p") };
    match cmd_init(&init_args("acme/tool"), &f) {
        InitPlan::Suggest { command, .. } => {
            assert_eq!(command, "nono profile init tool-local --extends acme/tool");
        }
        other => panic!("unexpected {other:?}"),
    }
    assert!(profile_exists(false, false, true));
    assert!(!profile_exists(false, false, false));
}

#[test]
fn test_full_vs_minimal_differences() {
    let minimal = build_skeleton(&init_args("minimal"));
    let full = build_skeleton(&ProfileInitArgs { full: true, ..init_args("full") });
    let minimal_obj = keys(&minimal);
    let full_obj = keys(&full);

    assert!(full_obj.len() > minimal_obj.len());

    assert!(!full_obj.contains(&"policy"));
    assert!(full_obj.contains(&"commands"));
    assert!(full_obj.contains(&"network"));
    assert!(full_obj.contains(&"env_credentials"));
    assert!(full_obj.contains(&"hooks"));
    assert!(full_obj.contains(&"rollback"));

    assert!(!full_obj.contains(&"open_urls"));
    assert!(!full_obj.contains(&"allow_launch_services"));
    assert!(!full_obj.contains(&"allow_gpu"));

    assert!(!minimal_obj.contains(&"commands"));
    assert!(!minimal_obj.contains(&"network"));
    assert!(!minimal_obj.contains(&"hooks"));

    let full_fs = keys(get(&full, "filesystem"));
    assert!(full_fs.contains(&"write"));
    assert!(full_fs.contains(&"allow_file"));
    assert!(full_fs.contains(&"read_file"));
    assert!(full_fs.contains(&"write_file"));
    assert!(full_fs.contains(&"deny"));
    assert!(full_fs.contains(&"bypass_protection"));
    assert!(full_fs.contains(&"suppress_save_prompt"));

    let min_fs = keys(get(&minimal, "filesystem"));
    assert!(!min_fs.contains(&"write"));
    assert!(!min_fs.contains(&"allow_file"));
    assert!(!min_fs.contains(&"deny"));
    assert!(!min_fs.contains(&"bypass_protection"));
    assert!(!min_fs.contains(&"suppress_save_prompt"));

    let full_groups = keys(get(&full, "groups"));
    assert!(full_groups.contains(&"include"));
    assert!(full_groups.contains(&"exclude"));
    let min_groups = keys(get(&minimal, "groups"));
    assert!(min_groups.contains(&"include"));
    assert!(!min_groups.contains(&"exclude"));

    let full_cmds = keys(get(&full, "commands"));
    assert!(full_cmds.contains(&"allow"));
    assert!(full_cmds.contains(&"deny"));

    let full_net = keys(get(&full, "network"));
    assert!(full_net.contains(&"allow_domain"));
    assert!(full_net.contains(&"credentials"));
    assert!(full_net.contains(&"open_port"));
    assert!(full_net.contains(&"listen_port"));
    assert!(full_net.contains(&"custom_credentials"));
}

fn deny_credentials() -> Group {
    Group {
        description: s("Keys and tokens"),
        platform: None,
        applies_here: true,
        required: true,
        allow: None,
        deny: Some(DenyOps { access: list(&["~/.ssh", "~/.aws"]), unlink: true, commands: list(&["rm"]) }),
        symlink_pairs: None,
    }
}

fn groups() -> Vec<(String, Group)> {
    vec![
        (s("deny_credentials"), deny_credentials()),
        (
            s("mac_only"),
            Group {
                description: s("Elsewhere"),
                platform: Some(s("macos")),
                applies_here: false,
                required: false,
                allow: Some(AllowOps {
                    read: list(&["/Library"]),
                    write: vec![],
                    readwrite: vec![],
                }),
                deny: None,
                symlink_pairs: Some(vec![(s("/tmp"), s("/private/tmp"))]),
            },
        ),
    ]
}

#[test]
fn test_groups_unknown_errors() {
    let result = cmd_groups_detail(&groups(), "nonexistent_group_xyz", &vec![]);
    assert!(result.is_err());
    assert!(groups_detail_to_json(&groups(), "nonexistent_group_xyz", &vec![]).is_err());
}

#[test]
fn groups_of_other_platforms_are_left_out() {
    assert_eq!(items(&groups_list_to_json(&groups(), false)).len(), 1);
    assert_eq!(items(&groups_list_to_json(&groups(), true)).len(), 2);
    let here = cmd_groups_list(&groups(), false).plain_lines().join("\n");
    assert!(here.contains("deny_credentials"));
    assert!(!here.contains("mac_only"));
    assert!(cmd_groups_list(&groups(), true).plain_lines().join("\n").contains("mac_only"));
}

#[test]
fn group_details_show_expansions() {
    let detail = cmd_groups_detail(
        &groups(),
        "deny_credentials",
        &vec![(s("~/.ssh"), s("/home/u/.ssh"))],
    )
    .expect("known")
    .plain_lines()
    .join("\n");
    assert!(detail.contains("Keys and tokens"));
    assert!(detail.contains("~/.ssh"));
    assert!(detail.contains("/home/u/.ssh"));
    let json = groups_detail_to_json(&groups(), "deny_credentials", &vec![]).expect("known");
    assert_eq!(text(get(&json, "name")), "deny_credentials");
}

fn named(name: &str) -> Profile {
    let mut p = Profile::default();
    p.meta.name = s(name);
    p
}

#[test]
fn test_validate_valid_profile() {
    let mut p = named("test");
    p.meta.description = Some(s("test profile"));
    p.groups.included = list(&["deny_credentials"]);
    p.workdir.access = WorkdirAccess::ReadWrite;
    let findings = check_profile(&Ok(p), &groups());
    assert_eq!(verdict(&findings, false, 0), Verdict::Passed);
    assert!(verdict_failure(verdict(&findings, false, 0)).is_ok());
}

#[test]
fn test_validate_invalid_group() {
    let mut p = named("test");
    p.groups.included = list(&["nonexistent_group_xyz"]);
    let findings = check_profile(&Ok(p), &groups());
    assert_eq!(findings.errors.len(), 1);
    assert!(verdict_failure(verdict(&findings, false, 0)).is_err());
}

#[test]
fn test_validate_exclude_required() {
    let mut p = named("test");
    p.groups.excluded = list(&["deny_credentials"]);
    let findings = check_profile(&Ok(p), &groups());
    assert!(verdict_failure(verdict(&findings, false, 0)).is_err());
}

#[test]
fn deprecated_keys_fail_only_when_strict() {
    let findings = check_profile(&Ok(named("test")), &groups());
    assert_eq!(verdict(&findings, false, 2), Verdict::Passed);
    assert_eq!(verdict(&findings, true, 2), Verdict::StrictFailure);
    assert_eq!(verdict(&findings, true, 0), Verdict::Passed);
    assert_eq!(emit_deprecation_summary(0), None);
    assert!(emit_deprecation_summary(2).is_some());
    let json = validation_to_json("f.json", &findings, 2);
    assert_eq!(text(get(&json, "file")), "f.json");
}

#[test]
fn unreadable_profiles_are_reported() {
    let failed: Loaded = Err((NonoError::ProfileParse(s("bad")), s("Profile parse error: bad")));
    let findings = check_profile(&failed, &groups());
    assert_eq!(findings.errors.len(), 1);
    assert_eq!(verdict(&findings, false, 0), Verdict::Failed);
    assert!(!cmd_validate("f", &failed, &groups()).plain_lines().is_empty());
    assert_ne!(
        classify_profile_error(&NonoError::ProfileParse(s("x"))),
        classify_profile_error(&NonoError::ProfileInheritance(s("x")))
    );
}

#[test]
fn targets_of_validation() {
    let user = Some(s("/c/profiles/x.json"));
    let pack = Some(s("/c/packages/x.json"));
    let json = Some(json_form("x"));
    assert_eq!(resolve_validate_target("x.json", true, &user, &pack, &None), "x.json");
    assert_eq!(resolve_validate_target("x", false, &user, &pack, &json), "/c/profiles/x.json");
    assert_eq!(resolve_validate_target("x", false, &None, &pack, &json), "/c/packages/x.json");
    assert_eq!(resolve_validate_target("x", false, &None, &None, &json), "x.json");
    assert_eq!(resolve_validate_target("x", false, &None, &None, &None), "x");
    assert!(resolve_validate_draft_target("bad name", Ok(s("/d"))).is_err());
    assert_eq!(resolve_validate_draft_target("good", Ok(s("/d"))).expect("draft"), "/d");
}

fn promotion(name: &str) -> PromoteFacts {
    PromoteFacts {
        meta_name: s(name),
        resolved: Ok(named(name)),
        target: FileEntry::Missing,
        target_path: s("/c/profiles/x.json"),
        current: Ok(Vec::new()),
        builtin: false,
        in_pack: false,
        base_path: s("/c/drafts/x.base"),
        base: Err(NonoError::ProfileParse(s("missing base"))),
    }
}

#[test]
fn promote_creates_new_profile_from_draft_and_removes_draft() {
    let result = cmd_promote("agent-local", &promotion("agent-local"), &groups());
    assert!(result.is_ok(), "promote should succeed: {result:?}");
    assert_eq!(promote_step(false, true), PromoteStep::Write);
}

#[test]
fn promote_existing_profile_requires_matching_base_hash() {
    let old: &[u8] = b"{\n  \"meta\": { \"name\": \"agent-local\" },\n  \"filesystem\": { \"read\": [\"/tmp\"] }\n}\n";
    let there = || PromoteFacts {
        target: FileEntry::Regular,
        current: Ok(old.to_vec()),
        ..promotion("agent-local")
    };
    assert!(
        cmd_promote("agent-local", &there(), &groups()).is_err(),
        "existing profile promote must require .base"
    );
    let with_base = |hash: String| PromoteFacts { base: Ok(hash.into_bytes()), ..there() };
    assert!(cmd_promote("agent-local", &with_base(sha256_hex(old)), &groups()).is_ok());
    assert!(cmd_promote("agent-local", &with_base(sha256_hex(b"changed")), &groups()).is_err());
    assert!(cmd_promote("agent-local", &with_base(s("nonsense")), &groups()).is_err());
}

#[test]
fn promote_refuses_to_shadow_builtin_profile() {
    let f = PromoteFacts { builtin: true, ..promotion("default") };
    assert!(
        cmd_promote("default", &f, &groups()).is_err(),
        "promote should refuse to shadow built-in profiles"
    );
}

#[test]
fn promotions_are_refused() {
    assert!(check_promote_request(true, true, "x").is_err());
    assert!(check_promote_request(true, false, "x").is_ok());
    assert!(check_promote_request(false, true, "bad name").is_err());
    assert!(cmd_promote("other", &promotion("x"), &groups()).is_err());
    let link = PromoteFacts { target: FileEntry::Symlink, ..promotion("x") };
    assert!(cmd_promote("x", &link, &groups()).is_err());
    assert!(regular_file_exists(FileEntry::Other, "profile", "/p").is_err());
    assert!(!regular_file_exists(FileEntry::Missing, "profile", "/p").expect("missing"));
    assert_eq!(promote_step(true, false), PromoteStep::Stop);
    assert_eq!(promote_step(false, false), PromoteStep::Ask);
    assert_eq!(temporary_file_name("x.json", 7), ".x.json.tmp.7");
}

#[test]
fn base_hashes() {
    let hash = sha256_hex(b"abc");
    assert_eq!(hash, "ba7816bf8f01cfea414140de5dae2223b00361a396177a9cb410ff61f20015ad");
    assert!(looks_like_hash(&hash));
    assert!(!looks_like_hash("ba78"));
    assert!(verify_base_hash("/b", format!("{hash}\n").as_bytes(), b"abc").is_ok());
    assert!(verify_base_hash("/b", hash.as_bytes(), b"abd").is_err());
    assert!(verify_base_hash("/b", &[0xff, 0xfe], b"abc").is_err());
}

#[test]
fn differences_by_line() {
    let d = print_promote_diff("x", &Some(b"a\nb\n".to_vec()), b"a\nc\n");
    let marked: Vec<(Style, &str)> = d.changes.iter().map(|c| (c.style, c.text.as_str())).collect();
    assert_eq!(marked.len(), 3);
    assert!(marked[0].1.ends_with("a\n"));
    assert!(marked[1].1.starts_with('-'));
    assert!(marked[2].1.starts_with('+'));
    assert_ne!(marked[1].0, marked[2].0);
    let new = print_promote_diff("x", &None, b"a\n");
    assert_eq!(new.changes.len(), 1);
    assert!(new.changes[0].text.starts_with('+'));
}

fn listed(name: &str) -> ListedProfile {
    ListedProfile {
        name: s(name),
        user_override: false,
        pack: None,
        builtin: true,
        loaded: Ok(Some(s("about"))),
        extends: None,
    }
}

#[test]
fn profiles_are_listed_by_source() {
    let user = ListedProfile { user_override: true, ..listed("mine") };
    let pack = ListedProfile { builtin: false, pack: Some(s("acme/tool")), ..listed("tool") };
    assert_eq!(bucket_of(&listed("default")), Bucket::BuiltIn);
    assert_eq!(bucket_of(&user), Bucket::User);
    assert_eq!(bucket_of(&pack), Bucket::Pack);
    assert_ne!(profile_source(&user), profile_source(&listed("default")));
    let all = vec![listed("default"), user, pack];
    let lines = cmd_list(&all).plain_lines().join("\n");
    assert!(lines.contains("default") && lines.contains("mine") && lines.contains("acme/tool"));
    assert_eq!(items(&list_to_json(&all)).len(), 3);
}

#[test]
fn showing_profiles() {
    let mut p = named("demo");
    p.filesystem.read = list(&["~/src"]);
    p.network.allow_domain = list(&["example.com"]);
    let extends = Some(list(&["default"]));
    let lines =
        cmd_show("demo", &extends, &p, false, &vec![(s("~/src"), s("/home/u/src"))]).plain_lines().join("\n");
    assert!(lines.contains("demo"));
    assert!(lines.contains("default"));
    assert!(lines.contains("example.com"));
    let json = profile_to_json(&p, &extends);
    assert!(!keys(&json).is_empty());
}

#[test]
fn differences_of_profiles() {
    let mut a = named("a");
    a.filesystem.read = list(&["/x", "/y"]);
    a.environment = Some(EnvironmentConfig { allow_vars: list(&["HOME"]), deny_vars: vec![] });
    let mut b = named("b");
    b.filesystem.read = list(&["/y", "/z"]);
    b.open_urls = Some(OpenUrlConfig { allow_origins: list(&["https://x"]), allow_localhost: true });
    let lines = cmd_diff("a", "b", &a, &b).plain_lines().join("\n");
    assert!(lines.contains("/x") && lines.contains("/z"));
    assert!(!lines.contains("/y"));
    assert!(lines.contains("https://x"));
    let same = cmd_diff("a", "a", &a, &a).plain_lines().join("\n");
    assert!(same.contains("(no differences)"));
    assert!(!keys(&diff_to_json("a", "b", &a, &b)).is_empty());
}

fn nothing_refused() -> Refusals {
    Refusals {
        paths: vec![],
        methods: vec![],
        endpoint_paths: vec![],
        names: vec![],
        upstreams: vec![],
        sources: vec![],
        env_vars: vec![],
    }
}

fn surroundings() -> Surroundings {
    Surroundings {
        expansions: vec![
            (s("$HOME/a"), Ok(s("/home/u/a"))),
            (s("$NONE/a"), Err(NonoError::HomeNotFound)),
        ],
        bypass_expansions: vec![],
        groups: ResolvedGroups {
            names: vec![],
            access: Ok(GroupAccess {
                capabilities: vec![],
                deny_paths: vec![],
                blocked_commands: vec![],
            }),
        },
        workdir: s("/work"),
        formats: vec![],
        refused: nothing_refused(),
    }
}

#[test]
fn access_is_widened() {
    assert_eq!(wider_access(AccessMode::Read, AccessMode::Read), AccessMode::Read);
    assert_eq!(wider_access(AccessMode::Read, AccessMode::Write), AccessMode::Readwrite);
    assert_eq!(wider_access(AccessMode::Readwrite, AccessMode::Read), AccessMode::Readwrite);
    let g = make_fs_grant("/a", AccessMode::Read, true, &vec![]).expect("grant");
    assert_eq!(g.type_, FsEntryType::File);
    assert!(make_fs_grant("/a", AccessMode::Read, true, &vec![(s("/a"), s("why"))]).is_err());
}

#[test]
fn manifests_collect_grants() {
    let mut p = named("m");
    p.workdir.access = WorkdirAccess::Read;
    p.filesystem.read = list(&["/b", "$HOME/a"]);
    p.filesystem.write = list(&["$HOME/a"]);
    p.filesystem.allow_file = list(&["/f"]);
    p.filesystem.deny = list(&["/secret"]);
    p.filesystem.bypass_protection = list(&["$OPEN"]);
    p.groups.included = list(&["system"]);
    let s1 = Surroundings {
        bypass_expansions: vec![(
            s("$OPEN"),
            Expansion { expanded: Some(s("/open")), literal: s("$OPEN") },
        )],
        groups: ResolvedGroups {
            names: list(&["system"]),
            access: Ok(GroupAccess {
                capabilities: vec![GroupCapability {
                    path: s("/usr"),
                    access: AccessMode::Read,
                    is_file: false,
                }],
                deny_paths: list(&["/home/u/.ssh", "/open/x"]),
                blocked_commands: list(&["rm"]),
            }),
        },
        ..surroundings()
    };
    let m = resolve_to_manifest(&p, &s1).expect("manifest");
    let fs = m.filesystem.expect("filesystem");
    let grants: Vec<(&str, AccessMode)> =
        fs.grants.iter().map(|g| (g.path.as_str(), g.access)).collect();
    assert_eq!(
        grants,
        vec![
            ("/b", AccessMode::Read),
            ("/f", AccessMode::Readwrite),
            ("/home/u/a", AccessMode::Readwrite),
            ("/usr", AccessMode::Read),
            ("/work", AccessMode::Read),
        ]
    );
    assert_eq!(fs.deny, list(&["/home/u/.ssh", "/secret"]));
    assert_eq!(m.network.mode, NetworkMode::Unrestricted);
    assert!(m.process.blocked_commands.contains(&s("rm")));
    assert!(matches!(m.process.exec_strategy, ExecStrategy::Monitor));
    let mut failing = named("m");
    failing.filesystem.read = list(&["$NONE/a"]);
    assert!(matches!(
        resolve_to_manifest(&failing, &surroundings()),
        Err(NonoError::HomeNotFound)
    ));
}

#[test]
fn manifests_collect_credentials() {
    let mut p = named("m");
    p.network.block = true;
    p.network.custom_credentials = vec![(
        s("svc"),
        CustomCredentialDef {
            upstream: s("https://api"),
            credential_key: Some(s("key")),
            auth: None,
            inject_mode: InjectMode::Header,
            inject_header: s("Authorization"),
            credential_format: None,
            path_pattern: None,
            path_replacement: None,
            query_param_name: None,
            proxy: None,
            env_var: None,
            endpoint_rules: vec![],
            tls_ca: None,
            tls_client_cert: None,
            tls_client_key: None,
        },
    )];
    let with = Surroundings { formats: vec![s("Bearer {}")], ..surroundings() };
    let m = resolve_to_manifest(&p, &with).expect("manifest");
    assert_eq!(m.credentials.len(), 1);
    assert_eq!(m.credentials[0].inject.format, "Bearer {}");
    let mut refused = nothing_refused();
    refused.names = vec![(s("svc"), s("bad name"))];
    let with = Surroundings { formats: vec![s("Bearer {}")], refused, ..surroundings() };
    assert!(resolve_to_manifest(&p, &with).is_err());
}

fn preflight_profile() -> Profile {
    let mut p = named("preflight-profile");
    p.extends = Some(list(&["default"]));
    p.workdir.access = WorkdirAccess::Write;
    p.rollback.exclude_patterns = list(&["target"]);
    p.network.allow_domain = list(&["example.com"]);
    p.network.upstream_bypass = list(&["localhost"]);
    p.network.listen_port = vec![8080];
    p.filesystem.bypass_protection = list(&["$WORKDIR/.git"]);
    p.filesystem.suppress_save_prompt = list(&["$WORKDIR/.copilot/settings.json"]);
    p
}

fn requested() -> Option<RequestedProfile> {
    Some(RequestedProfile {
        name: s("/w/preflight-profile.json"),
        registry_ref: false,
        loaded: Ok(preflight_profile()),
    })
}

fn run_facts() -> RunFacts {
    RunFacts {
        targets: vec![],
        statuses: vec![],
        bases: vec![],
        lockfile: Lockfile::default(),
        disk: vec![],
        patterns: PatternComplaints { allow_vars: None, deny_vars: None },
    }
}

fn cli_paths() -> CliPaths {
    CliPaths {
        bypass_protection: list(&["cli-override"]),
        suppress_save_prompt: list(&["cli-ignore"]),
    }
}

fn expansions() -> PathExpansions {
    let entry = |template: &str, path: &str| {
        (s(template), Expansion { expanded: Some(s(path)), literal: s(template) })
    };
    PathExpansions {
        bypass: vec![entry("$WORKDIR/.git", "/w/.git"), entry("cli-override", "/w/cli-override")],
        ignored: vec![
            entry("$WORKDIR/.copilot/settings.json", "/w/.copilot/settings.json"),
            entry("cli-ignore", "/w/cli-ignore"),
        ],
    }
}

#[test]
fn prepare_profile_for_preflight_matches_runtime_resolution() {
    let (runtime, _) =
        prepare_profile(&requested(), &run_facts(), &cli_paths(), &expansions(), true)
            .expect("runtime");
    let (preflight, said) =
        prepare_profile_for_preflight(&requested(), &run_facts(), &cli_paths(), &expansions())
            .expect("preflight");
    assert!(said.is_empty());

    assert_eq!(runtime.capability_elevation, preflight.capability_elevation);
    assert!(runtime.wsl2_proxy_policy.is_none() && preflight.wsl2_proxy_policy.is_none());
    assert_eq!(runtime.workdir_access, preflight.workdir_access);
    assert_eq!(runtime.rollback_exclude_patterns, preflight.rollback_exclude_patterns);
    assert_eq!(runtime.rollback_exclude_globs, preflight.rollback_exclude_globs);
    assert_eq!(runtime.network_profile, preflight.network_profile);
    assert_eq!(runtime.allow_domain, preflight.allow_domain);
    assert_eq!(runtime.credentials, preflight.credentials);
    assert!(runtime.custom_credentials.is_empty() && preflight.custom_credentials.is_empty());
    assert_eq!(runtime.upstream_proxy, preflight.upstream_proxy);
    assert_eq!(runtime.upstream_bypass, preflight.upstream_bypass);
    assert_eq!(runtime.listen_ports, preflight.listen_ports);
    assert_eq!(runtime.open_url_origins, preflight.open_url_origins);
    assert_eq!(runtime.open_url_allow_localhost, preflight.open_url_allow_localhost);
    assert_eq!(runtime.allow_launch_services, preflight.allow_launch_services);
    assert_eq!(runtime.allow_gpu, preflight.allow_gpu);
    assert_eq!(runtime.bypass_protection_paths, preflight.bypass_protection_paths);
    assert_eq!(runtime.ignored_denial_paths, preflight.ignored_denial_paths);
    assert!(runtime.ignored_denial_paths.contains(&s("/w/.copilot/settings.json")));
    assert!(runtime.ignored_denial_paths.contains(&s("/w/cli-ignore")));
    assert_eq!(runtime.allowed_env_vars, preflight.allowed_env_vars);
    assert_eq!(runtime.denied_env_vars, preflight.denied_env_vars);

    assert_eq!(runtime.workdir_access, Some(WorkdirAccess::Write));
    assert_eq!(runtime.rollback_exclude_patterns, list(&["target"]));
    assert_eq!(runtime.allow_domain, list(&["example.com"]));
    assert_eq!(runtime.listen_ports, vec![8080]);
    assert_eq!(runtime.bypass_protection_paths, list(&["/w/.git", "/w/cli-override"]));
}

#[test]
fn settings_come_after_the_checks() {
    let bare = prepare_profile(&None, &run_facts(), &cli_paths(), &expansions(), true)
        .expect("no profile")
        .0;
    assert_eq!(bare.workdir_access, None);
    assert!(bare.allow_domain.is_empty());
    assert_eq!(bare.bypass_protection_paths, list(&["/w/cli-override"]));

    let failed = Some(RequestedProfile {
        name: s("x"),
        registry_ref: false,
        loaded: Err(NonoError::ProfileNotFound(s("x"))),
    });
    assert!(prepare_profile(&failed, &run_facts(), &cli_paths(), &expansions(), true).is_err());

    let mut profile = preflight_profile();
    profile.packs = list(&["a/b"]);
    profile.hooks.hooks = vec![(
        s("tool"),
        HookConfig { event: s("e"), matcher: s("m"), script: s("s") },
    )];
    let with_pack = Some(RequestedProfile { name: s("x"), registry_ref: false, loaded: Ok(profile) });
    let facts = |installed: bool| RunFacts {
        disk: vec![PackOnDisk { installed: Ok(installed), files: vec![], bundle: None }],
        ..run_facts()
    };
    assert!(prepare_profile(&with_pack, &facts(false), &cli_paths(), &expansions(), false).is_err());
    let (_, lines) =
        prepare_profile(&with_pack, &facts(true), &cli_paths(), &expansions(), false).expect("run");
    assert_eq!(lines.len(), 2);
    assert_eq!(lines[0], "  Verified 1 pack(s)");
    assert!(lines[1].starts_with("  Note: profile declares hooks.tool but"));
}

#[test]
fn bad_patterns_are_warned_of() {
    let said = |allow: &[&str], deny: &[&str]| {
        let mut profile = preflight_profile();
        profile.environment =
            Some(EnvironmentConfig { allow_vars: list(allow), deny_vars: list(deny) });
        let asked = Some(RequestedProfile { name: s("x"), registry_ref: false, loaded: Ok(profile) });
        let facts = RunFacts {
            patterns: PatternComplaints {
                allow_vars: Some(s("bad allow")),
                deny_vars: Some(s("bad deny")),
            },
            ..run_facts()
        };
        prepare_profile_for_preflight(&asked, &facts, &cli_paths(), &expansions()).expect("run").1
    };
    assert_eq!(said(&["A*B"], &["*"]), list(&["Warning: bad allow", "Warning: bad deny"]));
    assert_eq!(said(&["A*B"], &[]), list(&["Warning: bad allow"]));
}

#[test]
fn bases_are_walked_once() {
    let table = vec![
        (s("a"), list(&["b", "c"])),
        (s("b"), list(&["a", "d"])),
        (s("c"), list(&["d"])),
    ];
    let mut met = walk_bases(&table, "a");
    met.sort();
    assert_eq!(met, list(&["a", "b", "c", "d"]));
}

#[test]
fn test_diff_shows_differences() {
    let mut p1 = named("default");
    p1.groups.included = list(&["deny_credentials", "system_read"]);
    let mut p2 = named("opencode");
    p2.groups.included = list(&["deny_credentials", "system_read", "node_runtime"]);
    let lines = cmd_diff("default", "opencode", &p1, &p2).plain_lines();
    assert!(lines.iter().any(|l| l.contains('+') && l.contains("node_runtime")));
    assert!(!lines.iter().any(|l| l.contains("system_read")));
}

#[test]
fn exchanged_profiles_exchange_the_sides() {
    let mut a = named("a");
    a.filesystem.read = list(&["/x"]);
    a.allow_gpu = Some(true);
    let mut b = named("b");
    b.filesystem.read = list(&["/y"]);
    let (d, e) = (diff_to_json("a", "b", &a, &b), diff_to_json("b", "a", &b, &a));
    let read = |v: &Json, side: &str| -> Vec<String> {
        items(get(get(get(v, "filesystem"), "read"), side)).iter().map(|t| s(text(t))).collect()
    };
    assert_eq!(read(&d, "added"), list(&["/y"]));
    assert_eq!(read(&d, "added"), read(&e, "removed"));
    assert_eq!(read(&d, "removed"), read(&e, "added"));
    assert!(matches!(get(get(&d, "allow_gpu"), "changed"), Json::Bool(true)));
    assert!(matches!(get(get(&e, "allow_gpu"), "changed"), Json::Bool(true)));
    assert!(matches!(get(get(&e, "allow_gpu"), "profile2"), Json::Bool(true)));
    let same = diff_to_json("a", "a", &a, &a);
    assert!(read(&same, "added").is_empty() && read(&same, "removed").is_empty());
    assert!(matches!(get(get(&same, "allow_gpu"), "changed"), Json::Bool(false)));
}
