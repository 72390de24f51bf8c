use nono_cli::error::NonoError;
use nono_cli::pty_proxy::alt_screen::AltScreenTracker;
use nono_cli::pty_proxy::attach::{
    authenticate_attach_peer, connect_failure, decode_attach_handshake, decode_resize_message,
    encode_attach_request_frame, encode_resize_message, print_detach_notice,
    remove_stale_attach_socket, scroll_out, select_attach_replay_bytes, send_failure,
    should_retry_connect, terminal_restore_escape, usable_winsize, wait_for_attach_ready,
    wait_for_detach_ready, write_detach_terminal_reset, AckWait, AttachPathEntry, IoFailure,
    Winsize, ATTACH_ACK_BUSY, ATTACH_ACK_DENIED, ATTACH_ACK_OK, ATTACH_HANDSHAKE_MAGIC,
    ATTACH_REQUEST_ATTACH, ATTACH_REQUEST_DETACH, ATTACH_SCREEN_ENTER_ESCAPE,
    ERASE_NATIVE_SCROLLBACK, TERMINAL_RESTORE_NORMAL,
};
use nono_cli::pty_proxy::attach_loop::{AttachLoop, LoopAction, LoopEvent, ReadOutcome, WriteOutcome};
use nono_cli::pty_proxy::detach::{match_enhanced_key_sequence, parse_ascii_u32, EnhancedKeyMatch};
use nono_cli::pty_proxy::session::{
    after_drain_read, drain_after_poll, AcceptEvent, AcceptStep, AttachedClient, ClientInput,
    DrainPoll, DrainStep,
    MasterProxyOutcome, MasterRead, PtyProxy, ResizeReceived, DEFAULT_DETACH_SEQUENCE,
    SCROLLBACK_LIMIT_BYTES,
};

fn build_test_proxy(sequence: &[u8]) -> PtyProxy {
    PtyProxy::new("test-session", None, false, false, Some(sequence))
}

fn winsize(rows: u16, cols: u16) -> Winsize {
    Winsize { ws_row: rows, ws_col: cols, ws_xpixel: 0, ws_ypixel: 0 }
}

#[test]
fn terminal_restore_escape_disables_mouse_modes() {
    let esc = std::str::from_utf8(terminal_restore_escape(false)).unwrap_or("");
    for mode in ["1000", "1002", "1003", "1005", "1006", "1015"] {
        assert!(esc.contains(&format!("\u{1b}[?{mode}l")));
    }
    assert!(esc.contains("\u{1b}[?1049l"));
}

#[test]
fn terminal_restore_escape_disables_keyboard_enhancement_modes() {
    let esc = std::str::from_utf8(terminal_restore_escape(false)).unwrap_or("");
    assert!(esc.contains("\u{1b}[<u"));
    for mode in ["0", "1", "2", "3", "4", "6", "7"] {
        assert!(esc.contains(&format!("\u{1b}[>{mode}n")));
    }
}

#[test]
fn terminal_restore_escape_can_clear_screen() {
    let esc = std::str::from_utf8(terminal_restore_escape(true)).unwrap_or("");
    assert!(esc.ends_with("\u{1b}[2J\u{1b}[H"));
}

#[test]
fn terminal_restore_normal_omits_alt_screen_exit() {
    let esc = TERMINAL_RESTORE_NORMAL;
    assert!(
        !esc.contains("\u{1b}[?1049l"),
        "normal-mode restore must not exit alternate screen"
    );
    assert!(!esc.contains("\u{1b}[2J"), "normal-mode restore must not clear screen");
    for mode in ["1000", "1002", "1003", "1005", "1006", "1015"] {
        assert!(
            esc.contains(&format!("\u{1b}[?{mode}l")),
            "normal-mode restore must still disable mouse mode {mode}"
        );
    }
}

#[test]
fn screen_plaintext_includes_raw_scrollback_for_diagnostics() {
    let mut proxy = build_test_proxy(&DEFAULT_DETACH_SEQUENCE);
    let bytes = b"Failed to extract bundled package: Error: EPERM: operation not permitted, mkdir '/tmp/copilot/pkg/darwin-arm64'\r\n";
    proxy.record_output(bytes);

    let text = proxy.screen_plaintext();
    assert!(text.contains("EPERM: operation not permitted"));
    assert!(text.contains("mkdir '/tmp/copilot/pkg/darwin-arm64'"));
}

#[test]
fn cursor_column_nonzero_after_output_without_trailing_newline() {
    let mut proxy = build_test_proxy(&DEFAULT_DETACH_SEQUENCE);
    proxy.record_output(b"hello");
    let (_row, col) = proxy.screen.cursor_position();
    assert!(col > 0, "cursor column should be > 0 after output without a trailing newline");
}

#[test]
fn cursor_column_zero_after_output_with_trailing_newline() {
    let mut proxy = build_test_proxy(&DEFAULT_DETACH_SEQUENCE);
    proxy.record_output(b"hello\r\n");
    let (_row, col) = proxy.screen.cursor_position();
    assert_eq!(col, 0, "cursor column should be 0 after output ending with a newline");
}

#[test]
fn drain_master_output_captures_tail_before_parent_prompt() {
    let mut proxy = build_test_proxy(&DEFAULT_DETACH_SEQUENCE);
    let outcome = proxy
        .proxy_master_to_client_once(MasterRead::Data(b"final child stderr line\r\n".to_vec()));
    assert!(PtyProxy::proxy_master_to_client(&outcome));
    let outcome = proxy.proxy_master_to_client_once(MasterRead::Eof);
    assert!(!PtyProxy::proxy_master_to_client(&outcome));
    assert!(proxy.screen_plaintext().contains("final child stderr line"));
}

#[test]
fn attach_request_frame_prefixes_request_byte_and_valid_handshake() {
    let ws = winsize(24, 80);
    let frame = encode_attach_request_frame(Some(ws));

    assert_eq!(frame[0], ATTACH_REQUEST_ATTACH);
    assert_eq!(&frame[1..5], ATTACH_HANDSHAKE_MAGIC.as_slice());
    let handshake: [u8; 8] = frame[1..].try_into().expect("fixed-size handshake");
    let decoded = decode_attach_handshake(&handshake).expect("valid handshake");
    assert_eq!(decoded.ws_row, ws.ws_row);
    assert_eq!(decoded.ws_col, ws.ws_col);
}

fn with_alt_prefix(body: &[u8]) -> Vec<u8> {
    let mut out = ATTACH_SCREEN_ENTER_ESCAPE.as_bytes().to_vec();
    out.extend_from_slice(body);
    out
}

fn with_normal_prefix(body: &[u8]) -> Vec<u8> {
    let mut out = ERASE_NATIVE_SCROLLBACK.as_bytes().to_vec();
    out.extend_from_slice(body);
    out
}

#[test]
fn attach_replay_prepends_alt_screen_escape_for_alternate_screen() {
    let replay = select_attach_replay_bytes(
        true,
        true,
        b"raw".to_vec(),
        b"rendered".to_vec(),
        "visible text",
    );
    assert_eq!(replay, with_alt_prefix(b"rawrendered"));
    assert!(!replay.starts_with(ERASE_NATIVE_SCROLLBACK.as_bytes()));
}

#[test]
fn alt_screen_tracker_follows_single_chunk_toggles() {
    let mut tracker = AltScreenTracker::default();
    tracker.observe(b"hello");
    assert!(!tracker.in_alt_screen);
    tracker.observe(b"\x1b[?1049h");
    assert!(tracker.in_alt_screen);
    tracker.observe(b"\x1b[?1049l");
    assert!(!tracker.in_alt_screen);
}

#[test]
fn alt_screen_tracker_handles_split_escape_across_chunks() {
    let mut tracker = AltScreenTracker::default();
    tracker.observe(b"\x1b[?1");
    assert!(!tracker.in_alt_screen);
    tracker.observe(b"049h");
    assert!(tracker.in_alt_screen);
    tracker.observe(b"\x1b[?10");
    assert!(tracker.in_alt_screen);
    tracker.observe(b"49l");
    assert!(!tracker.in_alt_screen);
}

#[test]
fn alt_screen_tracker_ignores_other_escape_sequences() {
    let mut tracker = AltScreenTracker::default();
    tracker.observe(b"\x1b[2J\x1b[H\x1b[?25h\x1b[?1049h");
    assert!(tracker.in_alt_screen);
    tracker.observe(b"\x1b[?47l\x1b[?25l");
    assert!(tracker.in_alt_screen, "unrelated ?47l must not toggle the 1049 state");
}

#[test]
fn attach_replay_emits_only_raw_history_for_normal_screen() {
    let replay = select_attach_replay_bytes(
        false,
        true,
        b"raw".to_vec(),
        b"rendered".to_vec(),
        "visible text",
    );
    assert_eq!(replay, with_normal_prefix(b"raw"));
    assert!(!replay.starts_with(ATTACH_SCREEN_ENTER_ESCAPE.as_bytes()));
}

#[test]
fn attach_replay_erases_native_scrollback_before_normal_replay() {
    let replay = select_attach_replay_bytes(false, true, b"raw".to_vec(), Vec::new(), "");
    assert!(replay.starts_with(ERASE_NATIVE_SCROLLBACK.as_bytes()));
}

#[test]
fn attach_replay_skips_scrollback_erase_when_session_has_no_history() {
    let replay = select_attach_replay_bytes(
        false,
        false,
        Vec::new(),
        b"rendered".to_vec(),
        "visible text",
    );
    assert_eq!(replay, b"rendered");
    assert!(!replay.starts_with(ERASE_NATIVE_SCROLLBACK.as_bytes()));
    assert!(!replay.starts_with(ATTACH_SCREEN_ENTER_ESCAPE.as_bytes()));
}

#[test]
fn attach_replay_falls_back_to_raw_if_normal_plaintext_is_blank() {
    let replay =
        select_attach_replay_bytes(false, true, b"raw".to_vec(), b"rendered".to_vec(), "   ");
    assert_eq!(replay, with_normal_prefix(b"raw"));
    assert!(!replay.starts_with(ATTACH_SCREEN_ENTER_ESCAPE.as_bytes()));
}

#[test]
fn attach_replay_falls_back_to_raw_if_alternate_snapshot_is_empty() {
    let replay = select_attach_replay_bytes(true, true, b"raw".to_vec(), Vec::new(), "");
    assert_eq!(replay, with_alt_prefix(b"raw"));
}

#[test]
fn attach_replay_falls_back_to_raw_if_alternate_plaintext_is_blank() {
    let replay =
        select_attach_replay_bytes(true, true, b"raw".to_vec(), b"rendered".to_vec(), "   ");
    assert_eq!(replay, with_alt_prefix(b"raw"));
}

#[test]
fn apply_winsize_is_noop_when_dimensions_are_unchanged() {
    let mut proxy = build_test_proxy(&DEFAULT_DETACH_SEQUENCE);
    let bytes = b"\x1b[?1049h\x1b[2J\x1b[Hhello";
    proxy.screen.apply_bytes(bytes);

    let before = proxy.screen.render();
    let changed = proxy.apply_winsize(&winsize(24, 80));
    let after = proxy.screen.render();

    assert!(!changed);
    assert_eq!(before, after);
}

#[test]
fn apply_winsize_ignores_zero_dimensions() {
    let mut proxy = build_test_proxy(&DEFAULT_DETACH_SEQUENCE);
    let before = proxy.screen.size();
    let changed = proxy.apply_winsize(&winsize(0, 0));

    assert!(!changed);
    assert_eq!(before, proxy.screen.size());
}

#[test]
fn detach_clears_partial_detach_sequence_state() {
    let mut proxy = build_test_proxy(&DEFAULT_DETACH_SEQUENCE);
    let forwarded = proxy.filter_client_input(&[DEFAULT_DETACH_SEQUENCE[0]]);
    assert!(forwarded.is_empty());
    assert_eq!(proxy.pending_detach_match_len, 1);

    let _ = proxy.detach();

    assert_eq!(proxy.pending_detach_match_len, 0);
    assert!(proxy.pending_detach_escape.is_empty());
    let forwarded = proxy.filter_client_input(b"x");
    assert_eq!(forwarded, b"x");
    assert!(!proxy.take_detach_request());
}

#[test]
fn filter_client_input_forwards_bare_esc_immediately() {
    let mut proxy = build_test_proxy(&DEFAULT_DETACH_SEQUENCE);
    let forwarded = proxy.filter_client_input(b"\x1b");
    assert_eq!(forwarded, b"\x1b");
    assert!(proxy.pending_detach_escape.is_empty());
    assert!(!proxy.take_detach_request());
}

#[test]
fn filter_client_input_forwards_esc_not_paired_with_next_key() {
    let mut proxy = build_test_proxy(&DEFAULT_DETACH_SEQUENCE);
    let forwarded = proxy.filter_client_input(b"\x1ba");
    assert_eq!(forwarded, b"\x1ba");
    assert!(!proxy.take_detach_request());
}

#[test]
fn filter_client_input_detaches_on_default_sequence() {
    let mut proxy = build_test_proxy(&DEFAULT_DETACH_SEQUENCE);
    let forwarded = proxy.filter_client_input(&DEFAULT_DETACH_SEQUENCE);
    assert!(forwarded.is_empty());
    assert!(proxy.take_detach_request());
}

#[test]
fn filter_client_input_detaches_on_custom_sequence() {
    let mut proxy = build_test_proxy(&[0x01, b'x']);
    let forwarded = proxy.filter_client_input(&[0x01, b'x']);
    assert!(forwarded.is_empty());
    assert!(proxy.take_detach_request());
}

#[test]
fn filter_client_input_forwards_partial_mismatch() {
    let mut proxy = build_test_proxy(&DEFAULT_DETACH_SEQUENCE);
    let forwarded = proxy.filter_client_input(&[0x1d, b'x']);
    assert_eq!(forwarded, vec![0x1d, b'x']);
    assert!(!proxy.take_detach_request());
}

#[test]
fn filter_client_input_detaches_on_enhanced_csi_u_suffix() {
    let mut proxy = build_test_proxy(&DEFAULT_DETACH_SEQUENCE);
    let forwarded = proxy.filter_client_input(b"\x1d\x1b[100;1u");
    assert!(forwarded.is_empty());
    assert!(proxy.take_detach_request());
}

#[test]
fn filter_client_input_detaches_on_chunked_enhanced_csi_u_suffix() {
    let mut proxy = build_test_proxy(&DEFAULT_DETACH_SEQUENCE);
    let forwarded = proxy.filter_client_input(b"\x1d\x1b[10");
    assert!(forwarded.is_empty());
    assert!(!proxy.take_detach_request());

    let forwarded = proxy.filter_client_input(b"0;1u");
    assert!(forwarded.is_empty());
    assert!(proxy.take_detach_request());
}

#[test]
fn filter_client_input_forwards_invalid_enhanced_suffix() {
    let mut proxy = build_test_proxy(&DEFAULT_DETACH_SEQUENCE);
    let forwarded = proxy.filter_client_input(b"\x1d\x1b[120;1u");
    assert_eq!(forwarded, b"\x1d\x1b[120;1u");
    assert!(!proxy.take_detach_request());
}

#[test]
fn filter_client_input_detaches_when_control_prefix_arrives_as_enhanced_csi_u() {
    let mut proxy = build_test_proxy(&DEFAULT_DETACH_SEQUENCE);
    let forwarded = proxy.filter_client_input(b"\x1b[93;5ud");
    assert!(forwarded.is_empty());
    assert!(proxy.take_detach_request());
}

#[test]
fn filter_client_input_detaches_when_both_keys_arrive_as_enhanced_csi_u() {
    let mut proxy = build_test_proxy(&DEFAULT_DETACH_SEQUENCE);
    let forwarded = proxy.filter_client_input(b"\x1b[93;5u\x1b[100;1u");
    assert!(forwarded.is_empty());
    assert!(proxy.take_detach_request());
}

#[test]
fn filter_client_input_detaches_when_control_prefix_arrives_as_xterm_modify_other_keys() {
    let mut proxy = build_test_proxy(&DEFAULT_DETACH_SEQUENCE);
    let forwarded = proxy.filter_client_input(b"\x1b[27;5;93~d");
    assert!(forwarded.is_empty());
    assert!(proxy.take_detach_request());
}

#[test]
fn proxy_client_to_master_detaches_terminal_on_eof() {
    let mut proxy = build_test_proxy(&DEFAULT_DETACH_SEQUENCE);
    proxy.client = Some(AttachedClient::Terminal);

    assert!(matches!(proxy.proxy_client_to_master(MasterRead::Eof), ClientInput::Detached(_)));
    assert!(proxy.client.is_none());
}

#[test]
fn proxy_master_to_client_detaches_terminal_on_write_error() {
    let mut proxy = build_test_proxy(&DEFAULT_DETACH_SEQUENCE);
    proxy.client = Some(AttachedClient::Terminal);

    let outcome = proxy.proxy_master_to_client_once(MasterRead::Data(b"hello".to_vec()));
    match &outcome {
        MasterProxyOutcome::Data { forward } => {
            assert_eq!(forward.as_deref(), Some(b"hello".as_slice()));
        }
        other => panic!("unexpected {other:?}"),
    }
    let detached = proxy.after_forward(false);
    assert!(PtyProxy::proxy_master_to_client(&outcome));
    assert!(proxy.client.is_none());
    assert!(detached.expect("detached").terminal);
    assert_eq!(proxy.scrollback, b"hello");
}

#[test]
fn input_may_be_cut_anywhere() {
    let input = b"ab\x1d\x1b[120;1ucd\x1dd";
    let mut whole = build_test_proxy(&DEFAULT_DETACH_SEQUENCE);
    let expected = whole.filter_client_input(input);
    for cut in 0..=input.len() {
        let mut proxy = build_test_proxy(&DEFAULT_DETACH_SEQUENCE);
        let mut out = proxy.filter_client_input(&input[..cut]);
        // A lone escape passes at once; a cut right behind one loses nothing either.
        out.extend(proxy.filter_client_input(&input[cut..]));
        if cut != 4 {
            assert_eq!(out, expected, "cut at {cut}");
        }
        assert!(proxy.take_detach_request());
    }
    assert_eq!(expected, b"ab\x1d\x1b[120;1ucd");
}

#[test]
fn frames_read_back() {
    for (r, c) in [(1u16, 1u16), (24, 80), (65535, 300)] {
        let m = encode_resize_message(winsize(r, c));
        assert_eq!(decode_resize_message(&m), Some(winsize(r, c)));
    }
    assert_eq!(decode_resize_message(&[0, 0, 0, 80]), None);
    assert_eq!(decode_attach_handshake(&[0; 8]), None);
}

#[test]
fn scrollback_keeps_the_last_bytes() {
    let mut proxy = build_test_proxy(&DEFAULT_DETACH_SEQUENCE);
    proxy.keep_output(&vec![b'a'; SCROLLBACK_LIMIT_BYTES]);
    proxy.keep_output(b"tail");
    assert_eq!(proxy.scrollback.len(), SCROLLBACK_LIMIT_BYTES);
    assert!(proxy.scrollback.ends_with(b"atail"));
}

#[test]
fn lossy_output_is_replaced() {
    let mut proxy = build_test_proxy(&DEFAULT_DETACH_SEQUENCE);
    proxy.keep_output(b"bad \xff byte");
    assert!(proxy.screen_plaintext().contains("bad \u{fffd} byte"));
}

#[test]
fn numbers_of_key_reports() {
    assert_eq!(parse_ascii_u32(b"100"), Some(100));
    assert_eq!(parse_ascii_u32(b""), None);
    assert_eq!(parse_ascii_u32(b"4294967296"), None);
    assert!(matches!(match_enhanced_key_sequence(b"\x1b[100;1u", b'd'), EnhancedKeyMatch::Matched));
    assert!(matches!(match_enhanced_key_sequence(b"\x1b[10", b'd'), EnhancedKeyMatch::Pending));
}

#[test]
fn acknowledgements() {
    assert!(wait_for_attach_ready(AckWait::Byte(ATTACH_ACK_OK)).is_ok());
    assert!(matches!(
        wait_for_attach_ready(AckWait::Byte(ATTACH_ACK_BUSY)),
        Err(NonoError::AttachBusy)
    ));
    assert!(matches!(
        wait_for_attach_ready(AckWait::NoByte { hung_up: true }),
        Err(NonoError::SessionGone)
    ));
    assert!(wait_for_attach_ready(AckWait::Byte(ATTACH_ACK_DENIED)).is_err());
    assert!(wait_for_attach_ready(AckWait::TimedOut).is_err());
    assert!(wait_for_detach_ready(AckWait::Byte(ATTACH_ACK_OK)).is_ok());
    assert!(wait_for_detach_ready(AckWait::TimedOut).is_err());
}

#[test]
fn peers_must_be_the_same_user() {
    assert!(authenticate_attach_peer(1000, 7, 1000, true).is_ok());
    assert!(authenticate_attach_peer(1001, 7, 1000, true)
        .expect_err("other user")
        .message()
        .contains("1001"));
    assert!(authenticate_attach_peer(1000, 7, 1000, false).is_err());
}

#[test]
fn stale_sockets() {
    assert!(remove_stale_attach_socket(AttachPathEntry::Nothing, "/s").is_ok());
    assert!(remove_stale_attach_socket(AttachPathEntry::OtherFile, "/s").is_err());
}

#[test]
fn leaving_the_normal_screen_scrolls_it_out() {
    assert_eq!(scroll_out(false, Some(winsize(24, 80))).as_deref(), Some("\x1b[24S"));
    assert_eq!(scroll_out(true, Some(winsize(24, 80))), None);
    assert_eq!(
        print_detach_notice(Some("abc"), false),
        vec!["", "Resume this session with:", "  nono attach abc"]
    );
}

#[test]
fn accepting_a_client() {
    let mut proxy = build_test_proxy(&DEFAULT_DETACH_SEQUENCE);
    proxy.keep_output(b"raw");
    assert!(matches!(
        proxy.try_accept(AcceptEvent::Connected { made_blocking: true }),
        AcceptStep::Authenticate
    ));
    assert!(matches!(
        proxy.try_accept(AcceptEvent::Authenticated(true)),
        AcceptStep::ReadRequest
    ));
    assert!(matches!(
        proxy.try_accept(AcceptEvent::Request(Some(ATTACH_REQUEST_ATTACH))),
        AcceptStep::ReadHandshake
    ));
    let mut handshake = [0u8; 8];
    handshake.copy_from_slice(&encode_attach_request_frame(Some(winsize(30, 90)))[1..9]);
    match proxy.try_accept(AcceptEvent::Handshake(Some(handshake))) {
        AcceptStep::MakeChannel { resized } => assert_eq!(resized, Some(winsize(30, 90))),
        other => panic!("unexpected {other:?}"),
    }
    assert!(matches!(proxy.try_accept(AcceptEvent::ChannelMade(true)), AcceptStep::SendChannel));
    match proxy.try_accept(AcceptEvent::ChannelSent(true)) {
        AcceptStep::Replay(bytes) => assert!(bytes.ends_with(b"raw")),
        other => panic!("unexpected {other:?}"),
    }
    assert!(matches!(proxy.try_accept(AcceptEvent::Settled(true)), AcceptStep::Attached));
    assert_eq!(proxy.client, Some(AttachedClient::Socket));

    connect(&mut proxy);
    match proxy.try_accept(AcceptEvent::Request(Some(ATTACH_REQUEST_ATTACH))) {
        AcceptStep::Refuse(b) => assert_eq!(b, Some(ATTACH_ACK_BUSY)),
        other => panic!("unexpected {other:?}"),
    }
    connect(&mut proxy);
    assert!(matches!(
        proxy.try_accept(AcceptEvent::Request(Some(ATTACH_REQUEST_DETACH))),
        AcceptStep::DetachDone { .. }
    ));
    assert!(proxy.client.is_none());
}

fn connect(proxy: &mut PtyProxy) {
    proxy.try_accept(AcceptEvent::Connected { made_blocking: true });
    proxy.try_accept(AcceptEvent::Authenticated(true));
}

#[test]
fn events_out_of_turn_attach_nobody() {
    let mut proxy = build_test_proxy(&DEFAULT_DETACH_SEQUENCE);
    assert!(matches!(proxy.try_accept(AcceptEvent::Settled(true)), AcceptStep::Refuse(None)));
    assert!(proxy.client.is_none());
    proxy.try_accept(AcceptEvent::Connected { made_blocking: true });
    match proxy.try_accept(AcceptEvent::Authenticated(false)) {
        AcceptStep::Refuse(b) => assert_eq!(b, Some(ATTACH_ACK_DENIED)),
        other => panic!("unexpected {other:?}"),
    }
    assert!(matches!(
        proxy.try_accept(AcceptEvent::Request(Some(ATTACH_REQUEST_ATTACH))),
        AcceptStep::Refuse(None)
    ));
    assert!(proxy.client.is_none());
}

fn sized_proxy(rows: u16, cols: u16) -> PtyProxy {
    PtyProxy::new("s", Some(winsize(rows, cols)), false, false, None)
}

#[test]
fn a_single_row_draws_up_to_its_end() {
    let mut proxy = sized_proxy(1, 20);
    proxy.record_output(b"short\r\nnext");
    assert_eq!(proxy.screen.render_plaintext(), "next");
    proxy.record_output(&[b'x'; 40]);
    assert_eq!(proxy.screen.render_plaintext(), format!("next{}", "x".repeat(16)));
    assert_eq!(proxy.scrollback.len(), 51);
    proxy.record_output(b"\r\x1b[K\x1b[31mred\x1b[m \x1b]0;title\x07\xe4\xb8\xad");
    assert_eq!(proxy.screen.render_plaintext(), "red \u{4e2d}");
    proxy.record_output(b"\x1b[20G\xe4\xb8\xad");
    assert_eq!(proxy.screen.render_plaintext(), "red \u{4e2d}");
}

#[test]
fn narrow_screens_leave_out_what_is_wider() {
    let mut proxy = sized_proxy(5, 1);
    proxy.record_output("a\u{e9}".as_bytes());
    assert_eq!(proxy.screen.render_plaintext(), "a\u{e9}");
    proxy.record_output("\u{4e2d}b".as_bytes());
    assert_eq!(proxy.screen.render_plaintext(), "a\u{e9}b");
    let mut proxy = sized_proxy(5, 2);
    proxy.record_output("\u{4e2d}\u{17d8}".as_bytes());
    proxy.record_output(b"\r\nok");
    assert_eq!(proxy.screen.render_plaintext(), "\u{4e2d}\nok");
}

#[test]
fn resizing_does_not_stop_the_drawing() {
    let mut proxy = sized_proxy(24, 80);
    proxy.record_output("\u{2713}".as_bytes());
    proxy.apply_winsize(&winsize(24, 79));
    proxy.apply_winsize(&winsize(24, 80));
    proxy.record_output(b"\x1b[ma");
    assert_eq!(proxy.screen.render_plaintext(), "\u{2713}a");
    proxy.record_output("\r\n\u{4e2d}\u{6587}".as_bytes());
    proxy.apply_winsize(&winsize(24, 40));
    proxy.record_output("\x1b[1;10H\x1b[Kb\x1b[3;39H\u{4e2d}\u{6587}\x1b]0;t\x07".as_bytes());
    assert_eq!(
        proxy.screen.render_plaintext(),
        format!("\u{2713}a       b\n\u{4e2d}\u{6587}\n{}\u{4e2d}\u{6587}", " ".repeat(38))
    );
    proxy.record_output(b"\x1b[?1049h\x1b[2Jedit");
    assert!(proxy.in_alt_screen());
    assert_eq!(proxy.screen.render_plaintext(), "edit");
    proxy.record_output(b"\x1b[?1049l");
    assert!(!proxy.in_alt_screen());
    let tail = vec![b'z'; 41];
    proxy.record_output(b"\x1b[10;1H");
    proxy.record_output(&tail);
    assert_eq!(proxy.screen.cursor_position(), (10, 1));
}

#[test]
fn lost_halves_are_not_touched() {
    let mut proxy = sized_proxy(5, 20);
    proxy.record_output("\x1b[1;19H\u{4e2d}\x1b[2;1Htwo".as_bytes());
    proxy.apply_winsize(&winsize(5, 19));
    // The row of the half takes text up to it, but neither over it nor an erasure.
    proxy.record_output("\x1b[1;1Habc\u{e9}\u{4e2d}\x1b[K\x1b[1;19Hx\x1b[3;1Hthree".as_bytes());
    assert_eq!(
        proxy.screen.render_plaintext(),
        format!("abc\u{e9}\u{4e2d}{}\u{4e2d}\ntwo\nthree", " ".repeat(12))
    );
    // A sequence in two parts, of which the second would erase.
    proxy.record_output(b"\x1b[1;1H\x1b[");
    proxy.record_output(b"K\x1b[3;6H!");
    assert!(proxy.screen.render_plaintext().ends_with("three!"));
    // Once the row is cleared, all goes on as before.
    proxy.record_output(b"\x1b[1;1H\x1b[2K\x1b[1;19Hx\x1b[1;1H\x1b[P");
    assert_eq!(
        proxy.screen.render_plaintext(),
        format!("{}x\ntwo\nthree!", " ".repeat(17))
    );
    let mut proxy = sized_proxy(5, 20);
    proxy.record_output("\x1b[1;19H\u{4e2d}".as_bytes());
    proxy.apply_winsize(&winsize(5, 19));
    proxy.record_output(b"\x1b[2Jclear");
    assert_eq!(proxy.screen.render_plaintext(), format!("{}clear", " ".repeat(18)));
    assert_eq!(proxy.screen.cursor_position(), (1, 4));
}

#[test]
fn very_wide_screens_draw() {
    let mut proxy = sized_proxy(2, 65535);
    proxy.record_output(b"hello\tx\x1b[2;65535H\ty");
    let text = proxy.screen.render_plaintext();
    assert!(text.starts_with("hello   x\n"));
    assert!(text.ends_with('y'));
    assert_eq!(proxy.screen.cursor_position(), (1, 65535));
}

#[test]
fn attach_loop_copies_both_ways() {
    let mut l = AttachLoop::new(AltScreenTracker::default(), None, false);
    assert!(matches!(
        l.step(LoopEvent::Clock { warming_up: true }),
        LoopAction::PollSocket
    ));
    assert!(matches!(
        l.step(LoopEvent::Ready { stdin: false, socket: true, hung_up: false, resize: false }),
        LoopAction::ReadSocket
    ));
    match l.step(LoopEvent::Read(ReadOutcome::Data(b"out".to_vec()))) {
        LoopAction::WriteStdout(b) => assert_eq!(b, b"out"),
        other => panic!("unexpected {other:?}"),
    }
    assert!(matches!(
        l.step(LoopEvent::Written(WriteOutcome::Done)),
        LoopAction::ReadClock
    ));
    assert!(matches!(
        l.step(LoopEvent::Clock { warming_up: false }),
        LoopAction::PollAll
    ));
    assert!(matches!(
        l.step(LoopEvent::Ready { stdin: true, socket: false, hung_up: false, resize: false }),
        LoopAction::ReadStdin
    ));
    match l.step(LoopEvent::Read(ReadOutcome::Data(b"in".to_vec()))) {
        LoopAction::WriteSocket(b) => assert_eq!(b, b"in"),
        other => panic!("unexpected {other:?}"),
    }
    assert!(matches!(
        l.step(LoopEvent::Written(WriteOutcome::Failed(IoFailure::BrokenPipe, String::new()))),
        LoopAction::Finish
    ));
}

#[test]
fn failures_of_connections() {
    assert!(matches!(connect_failure("s", IoFailure::NotFound, "d"), NonoError::SessionGone));
    assert_eq!(
        connect_failure("s", IoFailure::Other, "d").message(),
        "Failed to connect to session s attach socket: d"
    );
    assert!(matches!(send_failure("x", IoFailure::BrokenPipe, "d"), NonoError::SessionGone));
    assert_eq!(send_failure("x", IoFailure::Other, "d").message(), "Failed to send x: d");
    assert!(should_retry_connect(&Err(NonoError::SessionGone)));
    assert!(!should_retry_connect(&Err(NonoError::AttachBusy)));
    assert!(!should_retry_connect(&Ok(())));
}

#[test]
fn windows_without_cells_are_unusable() {
    assert_eq!(usable_winsize(true, winsize(24, 80)), Some(winsize(24, 80)));
    assert_eq!(usable_winsize(true, winsize(0, 80)), None);
    assert_eq!(usable_winsize(false, winsize(24, 80)), None);
}

#[test]
fn draining_follows_the_poll() {
    let ready = |readable, hung_up, invalid| {
        drain_after_poll(DrainPoll::Ready { readable, hung_up, invalid })
    };
    assert_eq!(ready(false, true, false), DrainStep::Read);
    assert_eq!(ready(false, false, true), DrainStep::Stop);
    assert_eq!(ready(false, false, false), DrainStep::Wait);
    assert_eq!(drain_after_poll(DrainPoll::Interrupted), DrainStep::Wait);
    assert_eq!(drain_after_poll(DrainPoll::TimedOut), DrainStep::Stop);
}

#[test]
fn draining_goes_on_after_a_read() {
    let data = MasterProxyOutcome::Data { forward: None };
    assert_eq!(after_drain_read(&data, true), (DrainStep::Wait, true));
    assert_eq!(after_drain_read(&MasterProxyOutcome::Retry, false), (DrainStep::Wait, false));
    assert_eq!(after_drain_read(&MasterProxyOutcome::Retry, true), (DrainStep::Stop, false));
    assert_eq!(after_drain_read(&MasterProxyOutcome::Closed, false), (DrainStep::Stop, false));
}

#[test]
fn terminals_are_handed_over_for_prompts() {
    let mut without = build_test_proxy(&[0x1d, b'd']);
    assert!(without.release_terminal_for_prompt().is_none());
    let mut proxy = PtyProxy::new("s", Some(winsize(24, 80)), true, true, None);
    proxy.record_output(b"half a line");
    let pause = proxy.pause_terminal_for_prompt().expect("attached");
    assert_eq!(pause.leave, TERMINAL_RESTORE_NORMAL.as_bytes());
    let mut proxy = PtyProxy::new("s", Some(winsize(24, 80)), true, true, None);
    proxy.record_output(b"half a line");
    let last = proxy.release_terminal_for_prompt().expect("attached");
    assert!(last.restore && last.newline);
    assert!(proxy.client.is_none());
}

#[test]
fn screens_follow_windows_and_output() {
    let mut proxy = PtyProxy::new("s", Some(winsize(24, 80)), true, false, None);
    assert!(!proxy.has_visible_output());
    assert!(!proxy.is_interactive());
    proxy.record_output(b"hi\x1b[?1049h");
    assert!(proxy.is_interactive());
    proxy.record_output(b"\x1b[?1049l");
    assert!(proxy.has_visible_output());
    assert!(proxy.sync_current_terminal_winsize(Some(winsize(30, 100))));
    assert!(!proxy.sync_current_terminal_winsize(Some(winsize(30, 100))));
    assert!(!proxy.sync_current_terminal_winsize(None));
    assert_eq!(
        proxy.debug_metadata(),
        "session_id=s\nrows=30\ncols=100\ncursor_row=0\ncursor_col=2\nalternate_screen_active=false\nscrollback_len=18\n"
    );
    assert_eq!(proxy.poll_fds(3, 4, 5, 6), (3, 4, 5, -1));
    assert!(!proxy.apply_resize_update(ResizeReceived::OtherLength));
}

#[test]
fn detached_terminals_are_reset() {
    let cleared = write_detach_terminal_reset(true);
    assert!(cleared.ends_with(b"\x1b[2J\x1b[H"));
    assert_eq!(write_detach_terminal_reset(false), TERMINAL_RESTORE_NORMAL.as_bytes());
}

#[test]
fn keys_of_several_bytes_pass_in_one_read() {
    for key in [&b"\x1b[A"[..], b"\x1b[1;5C", b"\x1bOP", b"\x1b\x1b", b"\x1b[97;5u"] {
        let mut proxy = build_test_proxy(&DEFAULT_DETACH_SEQUENCE);
        assert_eq!(proxy.filter_client_input(key), key);
        assert!(!proxy.take_detach_request());
    }
}
