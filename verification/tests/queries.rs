use nono_cli::capability::{AccessMode, CapabilitySource, FsCapability, NetworkMode};
use nono_cli::error::NonoError;
use nono_cli::protected_paths::{
    emit_protected_root_deny_rules, overlapping_protected_root,
    validate_caps_against_protected_roots, validate_requested_path_against_protected_roots,
    ProtectedRoots,
};
use nono_cli::query_ext::{
    print_result, query_network, query_path, query_scope, query_scope_without_landlock,
    suggested_flag_parts, PathFacts, QueryResult, ScopePolicy, ScopeQuery, SensitiveMatch,
};

fn s(t: &str) -> String {
    t.to_string()
}

fn dir(path: &str, access: AccessMode, source: CapabilitySource) -> FsCapability {
    FsCapability { original: s(path), resolved: s(path), access, is_file: false, source }
}

const FILE: PathFacts = PathFacts { is_file: true, exists: true };
const ABSENT: PathFacts = PathFacts { is_file: false, exists: false };

#[test]
fn test_query_path_granted() {
    let caps = vec![dir("/tmp/d", AccessMode::ReadWrite, CapabilitySource::User)];
    let result =
        query_path("/tmp/d/test.txt", AccessMode::Read, &caps, &vec![], &Ok(None), FILE)
            .expect("Query failed");
    match result {
        QueryResult::Allowed { source, granted_path, access, .. } => {
            assert_eq!(source.as_deref(), Some("user"));
            assert_eq!(granted_path.as_deref(), Some("/tmp/d"));
            assert_eq!(access.as_deref(), Some("read+write"));
        }
        _ => panic!("expected allowed result"),
    }
}

#[test]
fn test_query_path_denied() {
    let result =
        query_path("/some/random/path", AccessMode::Read, &vec![], &vec![], &Ok(None), ABSENT)
            .expect("Query failed");
    match result {
        QueryResult::Denied { reason, suggested_flag, matching_capability, .. } => {
            assert_eq!(reason, "path_not_granted");
            assert_eq!(suggested_flag.as_deref(), Some("--read /some/random"));
            assert!(matching_capability.is_none());
        }
        _ => panic!("expected denied result"),
    }
}

#[test]
fn test_query_path_prefers_more_specific_sufficient_capability() {
    let caps = vec![
        dir("/tmp", AccessMode::Read, CapabilitySource::System),
        dir("/tmp/d", AccessMode::ReadWrite, CapabilitySource::User),
    ];
    let result = query_path("/tmp/d/test.txt", AccessMode::Write, &caps, &vec![], &Ok(None), FILE)
        .expect("Query failed");
    assert!(matches!(result, QueryResult::Allowed { .. }));
}

#[test]
fn test_query_path_reports_near_miss_with_source_and_fix() {
    let caps = vec![dir("/tmp/d", AccessMode::Read, CapabilitySource::Group("dev".to_string()))];
    let result = query_path("/tmp/d/test.txt", AccessMode::Write, &caps, &vec![], &Ok(None), FILE)
        .expect("Query failed");
    match result {
        QueryResult::Denied { reason, matching_capability, suggested_flag, details, .. } => {
            assert_eq!(reason, "insufficient_access");
            assert_eq!(suggested_flag.as_deref(), Some("--write-file /tmp/d/test.txt"));
            let capability = matching_capability.expect("expected matching capability");
            assert_eq!(capability.access, "read");
            assert_eq!(capability.source, "group:dev");
            assert!(details
                .as_deref()
                .is_some_and(|d| d.contains("group:dev") && d.contains("write was requested")));
        }
        _ => panic!("expected denied result"),
    }
}

#[test]
fn test_query_path_sensitive_policy_includes_policy_source() {
    let sensitivity = Ok(Some(SensitiveMatch {
        group_name: s("deny_credentials"),
        description: s("Keys and tokens."),
    }));
    let result =
        query_path("/home/u/.ssh", AccessMode::Read, &vec![], &vec![], &sensitivity, ABSENT)
            .expect("Query failed");
    match result {
        QueryResult::Denied { reason, policy_source, suggested_flag, details, .. } => {
            assert_eq!(reason, "sensitive_path");
            assert!(policy_source.as_deref().is_some_and(|policy| policy.starts_with("group:")));
            assert!(details
                .as_deref()
                .is_some_and(|detail| detail.contains("filesystem.bypass_protection")));
            assert!(suggested_flag.is_none());
        }
        _ => panic!("expected denied result"),
    }
}

#[test]
fn exempt_paths_are_not_sensitive() {
    let caps = vec![dir("/home/u", AccessMode::Read, CapabilitySource::User)];
    let sensitivity = Err(NonoError::HomeNotFound);
    assert!(query_path("/home/u/x", AccessMode::Read, &caps, &vec![], &sensitivity, FILE).is_err());
    let exempt = vec![s("/home/u")];
    assert!(matches!(
        query_path("/home/u/x", AccessMode::Read, &caps, &exempt, &sensitivity, FILE),
        Ok(QueryResult::Allowed { .. })
    ));
}

#[test]
fn siblings_with_a_common_start_are_not_granted() {
    let caps = vec![dir("/tmp/d", AccessMode::ReadWrite, CapabilitySource::User)];
    assert!(matches!(
        query_path("/tmp/dd", AccessMode::Read, &caps, &vec![], &Ok(None), FILE),
        Ok(QueryResult::Denied { .. })
    ));
}

#[test]
fn flags_for_paths() {
    assert_eq!(suggested_flag_parts("/a/b", AccessMode::ReadWrite, FILE), ("--allow-file", s("/a/b")));
    assert_eq!(suggested_flag_parts("/a/b", AccessMode::Write, ABSENT), ("--write", s("/a")));
    assert_eq!(suggested_flag_parts("/a", AccessMode::Write, ABSENT), ("--write", s("/a")));
}

#[test]
fn test_query_network_allowed() {
    let result = query_network("example.com", 443, NetworkMode::AllowAll, false, &None);
    assert!(matches!(result, QueryResult::Allowed { .. }));
}

#[test]
fn test_query_network_blocked() {
    let result = query_network("example.com", 443, NetworkMode::Blocked, false, &None);
    assert!(matches!(result, QueryResult::Denied { .. }));
}

#[test]
fn test_query_scope_returns_structured_result() {
    let policy = Ok(ScopePolicy {
        signal_requested: true,
        signal_enforced: true,
        abstract_unix_socket_requested: true,
        abstract_unix_socket_enforced: false,
        scoping_supported: false,
        abi_version: s("V5"),
    });
    let result = query_scope(ScopeQuery::AbstractUnixSocket, &policy);
    match result {
        QueryResult::Scope { scope, state, requested, enforced, .. } => {
            assert_eq!(scope, "abstract-unix-socket");
            assert!(!state.is_empty());
            assert!(!enforced || requested);
        }
        _ => panic!("expected scope result"),
    }
    assert!(matches!(
        query_scope(ScopeQuery::Signal, &Err(s("no landlock"))),
        QueryResult::Scope { supported: false, .. }
    ));
    assert!(matches!(
        query_scope_without_landlock(ScopeQuery::Signal),
        QueryResult::Scope { state, .. } if state == "not_applicable"
    ));
}

#[test]
fn test_query_network_proxy_domain_filtering() {
    let result = query_network("api.example.com", 443, NetworkMode::ProxyOnly, true, &None);
    assert!(matches!(result, QueryResult::Allowed { .. }));

    let refusal = Some(s("Host evil.com is not in the allowlist"));
    match query_network("evil.com", 443, NetworkMode::ProxyOnly, true, &refusal) {
        QueryResult::Denied { reason, suggested_flag, .. } => {
            assert_eq!(reason, "proxy_filtered");
            assert_eq!(suggested_flag.as_deref(), Some("--allow-domain evil.com"));
        }
        _ => panic!("expected denied result"),
    }
}

#[test]
fn test_query_network_proxy_no_domain_filter() {
    assert!(matches!(
        query_network("anything.com", 443, NetworkMode::ProxyOnly, false, &None),
        QueryResult::Allowed { .. }
    ));
}

#[test]
fn answers_are_printed() {
    let lines = print_result(&query_network("h", 80, NetworkMode::Blocked, false, &None)).plain_lines();
    assert_eq!(lines[0], "DENIED");
    assert_eq!(lines[1], "  Reason: network_blocked");
    assert_eq!(
        lines[2],
        "  Details: Network access is fully blocked. Connection to h:80 would be denied."
    );
    let lines = print_result(&QueryResult::NotSandboxed { message: s("m") }).plain_lines();
    assert_eq!(lines, vec!["NOT SANDBOXED", "  m"]);
}

fn roots() -> Vec<String> {
    vec![s("/home/u/.nono")]
}

fn user_dir(path: &str) -> Vec<FsCapability> {
    vec![dir(path, AccessMode::ReadWrite, CapabilitySource::User)]
}

#[test]
fn parent_directory_capability_blocked_without_opt_in() {
    let err = validate_caps_against_protected_roots(&user_dir("/home/u"), &roots(), false, false)
        .expect_err("blocked");
    assert!(err.message().contains("overlaps protected nono state root"));
}

#[test]
fn parent_directory_capability_allowed_with_opt_in_on_macos() {
    validate_caps_against_protected_roots(&user_dir("/home/u"), &roots(), true, true)
        .expect("allowed on macOS with opt-in");
}

#[test]
fn parent_directory_capability_blocked_even_with_opt_in_on_linux() {
    let err = validate_caps_against_protected_roots(&user_dir("/home/u"), &roots(), true, false)
        .expect_err("blocked on Linux even with opt-in");
    assert!(err.message().contains("overlaps protected nono state root"));
}

#[test]
fn inside_protected_root_always_blocked() {
    for (path, is_file) in [("/home/u/.nono/state.db", true), ("/home/u/.nono/rollbacks", false)] {
        let err = validate_requested_path_against_protected_roots(
            path, is_file, "test", &roots(), false, false,
        )
        .expect_err("blocked");
        assert!(err.message().contains("overlaps protected nono state root"));
        assert!(validate_requested_path_against_protected_roots(
            path, is_file, "test", &roots(), true, true,
        )
        .is_err());
    }
}

#[test]
fn blocks_child_directory_capability() {
    validate_caps_against_protected_roots(
        &user_dir("/home/u/.nono/rollbacks"),
        &roots(),
        false,
        false,
    )
    .expect_err("blocked");
}

#[test]
fn allows_unrelated_capability() {
    validate_caps_against_protected_roots(&user_dir("/home/u/workspace"), &roots(), false, false)
        .expect("allowed");
}

#[test]
fn requested_path_blocks_nonexistent_child_under_protected_root() {
    let err = validate_requested_path_against_protected_roots(
        "/home/u/.nono/rollbacks/future-session",
        false,
        "CLI",
        &roots(),
        false,
        false,
    )
    .expect_err("blocked");
    assert!(err.message().contains("overlaps protected nono state root"));
}

#[test]
fn overlapping_protected_root_reports_match() {
    let overlap = overlapping_protected_root("/home/u/.nono/rollbacks", false, &roots(), false);
    assert_eq!(overlap, Some(s("/home/u/.nono")));
}

#[test]
fn overlapping_protected_root_parent_not_flagged_on_macos() {
    assert_eq!(overlapping_protected_root("/home/u", false, &roots(), true), None);
}

#[test]
fn overlapping_protected_root_parent_flagged_on_linux() {
    assert!(overlapping_protected_root("/home/u", false, &roots(), false).is_some());
}

#[test]
fn emit_protected_root_deny_rules_adds_platform_rules() {
    let rules = emit_protected_root_deny_rules(&roots(), true);
    assert!(!rules.is_empty(), "should have platform rules");
    let joined = rules.join("\n");
    assert!(joined.contains("deny file-read-data"), "should deny reads: {joined}");
    assert!(joined.contains("deny file-write*"), "should deny writes: {joined}");
    assert!(joined.contains("allow file-read-metadata"), "should allow metadata: {joined}");
    assert!(emit_protected_root_deny_rules(&roots(), false).is_empty());
}

#[test]
fn roots_need_a_home() {
    assert_eq!(
        ProtectedRoots::from_defaults(Some(s("/home/u/.nono"))).expect("roots").as_paths(),
        roots().as_slice()
    );
    assert!(matches!(ProtectedRoots::from_defaults(None), Err(NonoError::HomeNotFound)));
}
