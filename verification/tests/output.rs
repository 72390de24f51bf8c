use nono_cli::capability::{AccessMode, CapabilitySource, FsCapability};
use nono_cli::error::{exit_message, NonoError};
use nono_cli::open_url_runtime::{
    run_open_url_helper, supervisor_path, url_open_request, SupervisorReply,
};
use nono_cli::output::diagnostic::{
    print_diagnostic_footer, print_terminal_block, render_diagnostic_footer,
    render_terminal_block_for_tty, sanitize_terminal_output,
};
use nono_cli::output::{
    detect_install_command, format_scope_status, format_unix_socket_mode_badge, is_cwd_shared,
    print_abi_info, print_applying_sandbox, print_banner, print_capabilities, print_dry_run,
    print_landlock_scope_policy, print_profile_hint, print_rollback_session_summary,
    print_rollback_tracking, print_skipped_requested_paths, print_supervised_info,
    print_update_notification, print_warning, prompt_cwd_sharing, CapabilitySummary, ChangeType,
    DetectedAbi, NetworkSummary, SocketScope, UnixSocketCapability, UnixSocketMode, UpdateInfo,
};
use nono_cli::report::Style;

fn s(t: &str) -> String {
    t.to_string()
}

#[test]
fn render_diagnostic_footer_preserves_line_structure() {
    let footer = "nono diagnostic\n────────\nThe command failed.\n  Learn: nono learn";
    let rendered = render_diagnostic_footer(footer).plain_lines().join("\n");
    assert_eq!(rendered.lines().count(), 4);
}

#[test]
fn render_terminal_block_for_tty_clears_each_line_tail() {
    assert_eq!(
        render_terminal_block_for_tty("short\nnext"),
        "\rshort\u{1b}[K\r\n\rnext\u{1b}[K\r\n"
    );
}

#[test]
fn print_profile_hint_is_noop_when_silent() {
    assert!(print_profile_hint("agent", "agent-code", true).is_empty());
    assert_eq!(
        print_profile_hint("agent", "agent-code", false).plain_lines()[1],
        "  Try: nono run --profile agent-code -- agent"
    );
}

#[test]
fn unix_socket_mode_badges_are_fixed_width_and_distinct() {
    let (_, connect) = format_unix_socket_mode_badge(UnixSocketMode::Connect);
    let (_, bind) = format_unix_socket_mode_badge(UnixSocketMode::ConnectBind);
    assert!(connect.contains("sock "));
    assert!(bind.contains("sock+"));
    assert_ne!(connect, bind);
}

fn caps() -> CapabilitySummary {
    CapabilitySummary {
        fs: vec![
            FsCapability {
                original: s("/w"),
                resolved: s("/w"),
                access: AccessMode::ReadWrite,
                is_file: false,
                source: CapabilitySource::User,
            },
            FsCapability {
                original: s("/usr"),
                resolved: s("/usr"),
                access: AccessMode::Read,
                is_file: false,
                source: CapabilitySource::Group(s("system")),
            },
        ],
        unix_sockets: vec![UnixSocketCapability {
            resolved: s("/s/a.sock"),
            mode: UnixSocketMode::Connect,
            scope: SocketScope::DirChildren,
            source: CapabilitySource::Profile,
        }],
        network: NetworkSummary::ProxyOnly { port: 8080, bind_ports: vec![3000, 3001] },
        localhost_ports: vec![5000],
    }
}

#[test]
fn print_capabilities_with_unix_socket_does_not_panic() {
    assert!(print_capabilities(&caps(), 0, true).is_empty());
    assert!(print_capabilities(&caps(), 1, true).is_empty());
    let brief = print_capabilities(&caps(), 0, false).plain_lines();
    assert!(brief.contains(&s("   r+w  /w (dir)")));
    assert!(brief.contains(&s("       + 1 system/group paths (-v to show)")));
    assert!(brief.contains(&s("   net  proxy localhost:8080, bind: 3000, 3001")));
    assert!(brief.contains(&s("   ipc  localhost:5000")));
    let full = print_capabilities(&caps(), 1, false).plain_lines();
    assert!(full.contains(&s("    r   /usr (dir) [group:system]")));
    assert!(full
        .contains(&s("  sock  /s/a.sock [profile]  (directory grant — direct child sockets only)")));
}

#[test]
fn diagnostics_are_styled_by_line() {
    let r = render_diagnostic_footer(
        "nono diagnostic\n──\n\nMissing path:\n  Network: blocked\n  /etc/x\n    + 2 more\nplain\x1b[31m!",
    );
    assert_eq!(r.lines[0][0].style, Style::RedBold);
    assert_eq!(r.lines[0][0].text, "NONO DIAGNOSTIC");
    assert_eq!(r.lines[1][0].text.chars().count(), 24);
    assert!(r.lines[2].is_empty());
    assert_eq!(r.lines[3][0].style, Style::RedBold);
    assert_eq!(r.lines[4][3].style, Style::Red);
    assert_eq!(r.lines[5][1].text, "/etc/x");
    assert_eq!(r.lines[6][1].style, Style::Subtext);
    assert_eq!(r.lines[7][0].text, "plain!");
}

#[test]
fn unsafe_text_is_cleaned() {
    assert_eq!(sanitize_terminal_output("a\x1b[1;31mb\x1b]c\x07d\ne\x1b"), "abd\ne");
    assert_eq!(sanitize_terminal_output("\x1b]0;evil\x07ok"), "ok");
    assert_eq!(sanitize_terminal_output("a\x1bPq#0\x1b\\b\x1b_x\x1b\\c\x1b^y"), "abc");
    let once = sanitize_terminal_output("\x1b[x\x1b\x1b[31mz\u{9b}y");
    assert_eq!(sanitize_terminal_output(&once), once);
    assert_eq!(sanitize_terminal_output("plain text ✓"), "plain text ✓");
}

#[test]
fn blocks_for_terminals_and_files() {
    assert_eq!(print_terminal_block("a", false, false), "a\n");
    assert_eq!(print_diagnostic_footer("a", false), "\na\n");
    assert_eq!(print_diagnostic_footer("a", true), "\r\x1b[K\r\n\ra\x1b[K\r\n");
}

#[test]
fn kernel_reports() {
    let abi = |scoping: bool| DetectedAbi {
        name: s("Landlock V5"),
        has_refer: true,
        has_truncate: true,
        has_network: true,
        has_ioctl_dev: true,
        has_scoping: scoping,
    };
    assert!(print_abi_info(&Ok(abi(true)), false, false).is_empty());
    assert_eq!(
        print_abi_info(&Ok(abi(false)), false, false).plain_lines()[1],
        "          degraded: Scoping (upgrade kernel for full support)"
    );
    assert!(print_abi_info(&Ok(abi(true)), true, false).plain_lines()[1]
        .contains("degraded: capability elevation (seccomp notify) unavailable on WSL2"));
    assert!(print_abi_info(&Err(s("e")), false, false).plain_lines()[0].contains("failed: e"));
    assert!(print_landlock_scope_policy(&Err(s("e")), 0, false).is_empty());
    assert_eq!(print_landlock_scope_policy(&Err(s("e")), 1, false).plain_lines().len(), 1);
    assert_eq!(format_scope_status(true, false, false).1, "requested, unsupported by detected ABI");
    assert_eq!(format_scope_status(true, true, true).0, Style::Green);
}

#[test]
fn small_messages() {
    assert_eq!(print_banner("1.0", false).plain_lines()[1], "  nono v1.0");
    assert!(print_banner("1.0", true).is_empty());
    assert_eq!(print_warning("w").plain_lines(), vec!["  warning: w"]);
    assert_eq!(
        print_supervised_info(false, true, true).as_deref(),
        Some("supervised (snapshots, proxy, supervisor)")
    );
    assert_eq!(print_supervised_info(false, false, false), None);
    assert_eq!(print_applying_sandbox(false).plain_lines().len(), 2);
    assert_eq!(print_skipped_requested_paths(&vec![s("/x")], false).plain_lines().len(), 3);
    assert!(print_skipped_requested_paths(&Vec::new(), false).is_empty());
    assert_eq!(print_dry_run("ls", false).plain_lines()[1], "  $ ls");
    assert_eq!(
        prompt_cwd_sharing("/w", AccessMode::Read, true).plain_lines()[0],
        "  Share /w with read access?"
    );
    assert_eq!(prompt_cwd_sharing("/w", AccessMode::Read, false).plain_lines().len(), 1);
    assert!(is_cwd_shared(" YES\n"));
    assert!(!is_cwd_shared("\n"));
}

#[test]
fn snapshots() {
    let paths: Vec<String> = ["/a", "/b", "/c", "/d"].iter().map(|p| s(p)).collect();
    assert_eq!(print_rollback_tracking(&paths, false).plain_lines()[2], "         + 2 more paths");
    assert_eq!(print_rollback_tracking(&paths[..3].to_vec(), false).plain_lines().len(), 3);
    let changes = vec![ChangeType::Created, ChangeType::Deleted, ChangeType::Created];
    assert_eq!(
        print_rollback_session_summary(&changes, false).plain_lines()[1],
        "  nono 3 files changed (2 created, 1 deleted)"
    );
    assert!(print_rollback_session_summary(&Vec::new(), false).is_empty());
}

#[test]
fn updates() {
    assert_eq!(detect_install_command(&None, true, true), "cargo install nono-cli");
    assert_eq!(
        detect_install_command(&Some(s("/opt/homebrew/bin/nono")), true, true),
        "brew upgrade nono"
    );
    assert_eq!(
        detect_install_command(&Some(s("/usr/bin/nono")), false, true),
        "sudo dnf upgrade nono"
    );
    assert_eq!(
        detect_install_command(&Some(s("/usr/bin/nono")), true, true),
        "sudo apt update && sudo apt upgrade nono"
    );
    let info = UpdateInfo {
        latest_version: s("2.0\x1b[31m"),
        message: Some(s("m\x07")),
        release_url: None,
    };
    let lines = print_update_notification(&info, "1.0", "cmd", false).plain_lines();
    assert_eq!(lines, vec!["  update 2.0 available (current: 1.0)", "  m", "  $ cmd", ""]);
}

#[test]
fn opening_urls() {
    let r = url_open_request("https://example.com/oauth", 42);
    assert_eq!(r.request_id, "url-42");
    assert_eq!(r.url, "https://example.com/oauth");
    assert!(run_open_url_helper(&SupervisorReply::UrlOpened { success: true, error: None }).is_ok());
    assert_eq!(
        run_open_url_helper(&SupervisorReply::UrlOpened {
            success: false,
            error: Some(s("Origin not in allowed list")),
        })
        .expect_err("denied")
        .message(),
        "Supervisor denied URL open: Origin not in allowed list"
    );
    assert_eq!(
        run_open_url_helper(&SupervisorReply::UrlOpened { success: false, error: None })
            .expect_err("denied")
            .message(),
        "Supervisor denied URL open: Unknown error"
    );
    assert!(run_open_url_helper(&SupervisorReply::Other(s("x"))).is_err());
    assert!(supervisor_path(None).is_err());
}

#[test]
fn last_words() {
    assert_eq!(exit_message(&NonoError::ActionRequired(s("do")), "x").as_deref(), Some("do"));
    assert_eq!(exit_message(&NonoError::Cancelled(s("c")), "x"), None);
    assert_eq!(exit_message(&NonoError::HomeNotFound, "x").as_deref(), Some("nono: x"));
}
