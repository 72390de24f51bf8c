use nono_cli::platform::when::{compare_versions, when_matches_current, When};
use nono_cli::platform::{
    current, current_os_name, detect_windows_version, parse_os_release,
    parse_windows_registry_value, tool_output, LinuxInfo, MacosInfo, Os, PlatformInfo, WindowsInfo,
};
use std::cmp::Ordering;

fn fedora() -> PlatformInfo {
    PlatformInfo {
        os: Os::Linux,
        linux: Some(LinuxInfo {
            distro: Some("fedora".to_string()),
            distro_like: vec!["rhel".to_string()],
            version_id: Some("43".to_string()),
            variant_id: Some("workstation".to_string()),
        }),
        macos: None,
        windows: None,
    }
}

fn macos() -> PlatformInfo {
    PlatformInfo {
        os: Os::Macos,
        linux: None,
        macos: Some(MacosInfo {
            product_version: "15.6.1".to_string(),
            build_version: "24G90".to_string(),
        }),
        windows: None,
    }
}

#[test]
fn parse_os_release_handles_quotes_and_id_like() {
    let info = parse_os_release(
        r#"
ID=fedora
ID_LIKE="rhel centos"
VERSION_ID="43"
VARIANT_ID=workstation
"#,
    );
    assert_eq!(info.distro.as_deref(), Some("fedora"));
    assert_eq!(info.distro_like, vec!["rhel", "centos"]);
    assert_eq!(info.version_id.as_deref(), Some("43"));
    assert_eq!(info.variant_id.as_deref(), Some("workstation"));
}

#[test]
fn linux_predicates_match_distro_like_version_and_variant() {
    let platform = fedora();
    assert!(When::parse("linux").expect("parse").matches(&platform));
    assert!(When::parse("linux:fedora").expect("parse").matches(&platform));
    assert!(When::parse("linux:rhel-like").expect("parse").matches(&platform));
    assert!(When::parse("linux:fedora:>=42").expect("parse").matches(&platform));
    assert!(When::parse("linux:fedora:43:workstation").expect("parse").matches(&platform));
    assert!(!When::parse("linux:ubuntu").expect("parse").matches(&platform));
}

#[test]
fn macos_version_predicates_match() {
    let platform = macos();
    assert!(When::parse("macos").expect("parse").matches(&platform));
    assert!(When::parse("macos:>=15").expect("parse").matches(&platform));
    assert!(!When::parse("macos:<15").expect("parse").matches(&platform));
}

#[test]
fn windows_build_predicate_parses_and_matches() {
    let platform = PlatformInfo {
        os: Os::Windows,
        linux: None,
        macos: None,
        windows: Some(WindowsInfo {
            product_name: "Windows 11 Pro".to_string(),
            version: "10.0.22631".to_string(),
            edition: Some("Professional".to_string()),
        }),
    };
    assert!(When::parse("windows:>=10:>=22000").expect("parse").matches(&platform));
    assert!(When::parse("windows:>=10:22631").expect("parse").matches(&platform));
    assert!(!When::parse("windows:>=10:>30000").expect("parse").matches(&platform));
}

#[test]
fn windows_registry_dword_values_are_decimalized() {
    let output = r#"
HKEY_LOCAL_MACHINE\SOFTWARE\Microsoft\Windows NT\CurrentVersion
    CurrentMajorVersionNumber    REG_DWORD    0xa
"#;
    assert_eq!(
        parse_windows_registry_value(output, "CurrentMajorVersionNumber").as_deref(),
        Some("10")
    );
}

#[test]
fn negation_and_any_of_work() {
    let platform = fedora();
    assert!(When::parse("!macos").expect("parse").matches(&platform));
    let when = When::parse_any(&vec!["macos".to_string(), "linux:fedora:>=43".to_string()])
        .expect("parse");
    assert!(when.matches(&platform));
}

#[test]
fn unknown_os_is_false_not_error() {
    let platform = fedora();
    assert!(!When::parse("freebsd").expect("parse").matches(&platform));
}

#[test]
fn unknown_comparator_is_error() {
    assert!(When::parse("linux:fedora:~=43").is_err());
}

#[test]
fn version_segments_compare_numerically_when_possible() {
    assert_eq!(compare_versions("24.10", "24.4"), Ordering::Greater);
    assert_eq!(compare_versions("24", "24.04"), Ordering::Less);
    assert_eq!(compare_versions("unstable", "25.05"), Ordering::Less);
    assert_eq!(compare_versions("unstable", "unstable"), Ordering::Equal);
}

#[test]
fn malformed_predicates_say_why() {
    let why = |s: &str| When::parse(s).expect_err("malformed").message();
    assert_eq!(why("   "), "when predicate must not be empty");
    assert_eq!(why("!"), "invalid when predicate '!': negation requires a predicate");
    assert_eq!(
        why("linux!"),
        "invalid when predicate 'linux!': '!' is only allowed at the start"
    );
    assert_eq!(why("linux::1"), "invalid when predicate 'linux::1': empty ':' segment");
    assert_eq!(
        why("li nux"),
        "invalid when predicate 'li nux': invalid identifier segment 'li nux'"
    );
    assert_eq!(
        why("macos:1:2"),
        "invalid when predicate 'macos:1:2': too many ':' segments"
    );
    assert_eq!(why("macos:>="), "invalid when predicate 'macos:>=': missing version");
    assert_eq!(
        why("linux:fedora:~=43"),
        "invalid when predicate 'linux:fedora:~=43': unsupported version comparator in '~=43'"
    );
    assert_eq!(
        When::parse_any(&Vec::new()).expect_err("empty").message(),
        "when predicate array must not be empty"
    );
}

#[test]
fn negation_turns_the_outcome() {
    for p in ["linux", "linux:fedora:<43", "macos:>=15", "freebsd:x"] {
        let plain = When::parse(p).expect("parse");
        let negated = When::parse(&format!("!{p}")).expect("parse");
        for platform in [fedora(), macos()] {
            assert_eq!(plain.matches(&platform), !negated.matches(&platform));
        }
        assert_eq!(negated.texts(), vec![format!("!{p}")]);
    }
}

#[test]
fn nothing_to_meet_is_met() {
    assert!(when_matches_current(&None, &macos()));
    assert!(!when_matches_current(&Some(When::parse("linux").expect("parse")), &macos()));
}

#[test]
fn current_platform() {
    let no_macos = || MacosInfo { product_version: String::new(), build_version: String::new() };
    let no_windows = || WindowsInfo {
        product_name: String::new(),
        version: String::new(),
        edition: None,
    };
    let linux = current("linux", &Some("ID=debian\n".to_string()), no_macos(), no_windows());
    assert!(matches!(linux.os, Os::Linux));
    assert_eq!(linux.linux.expect("info").distro.as_deref(), Some("debian"));
    let other = current("freebsd", &None, no_macos(), no_windows());
    assert!(matches!(other.os, Os::Unknown(name) if name == "unknown"));
    assert_eq!(current_os_name("macos"), "macos");
    assert_eq!(current_os_name("plan9"), "unknown");
}

#[test]
fn windows_versions() {
    let s = |t: &str| Some(t.to_string());
    assert_eq!(detect_windows_version(&s("10"), &s("0"), &s("22631"), &None), "10.0.22631");
    assert_eq!(detect_windows_version(&s("10"), &None, &s("22631"), &None), "10.0.22631");
    assert_eq!(detect_windows_version(&None, &None, &s("1"), &s("6.3")), "6.3");
    assert_eq!(parse_windows_registry_value("Name REG_SZ  a   b\n", "Name").as_deref(), Some("a b"));
    assert_eq!(parse_windows_registry_value("Name REG_DWORD 0xzz\n", "Name").as_deref(), Some("0xzz"));
    assert_eq!(parse_windows_registry_value("Name\n", "Name"), None);
    assert_eq!(tool_output("  15.1\n").as_deref(), Some("15.1"));
    assert_eq!(tool_output(" \n"), None);
}
