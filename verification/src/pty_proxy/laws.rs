//! What sessions and their clients say to each other, byte by byte.

use crate::error::ErrorView;
use crate::pty_proxy::alt_screen::{enter_toggle, exit_toggle, scan, toggle_at};
use crate::pty_proxy::attach::{
    attach_ready, detach_ready, handshake_bytes, handshake_size, is_disconnect, replay, resize_size,
    AckWait, IoFailure, Winsize, ATTACH_SCREEN_ENTER_ESCAPE, ERASE_NATIVE_SCROLLBACK,
};
use crate::pty_proxy::attach_loop::{
    loop_step, ActionView, LoopEvent, LoopState, ReadOutcome, Stage, WriteOutcome,
};
use crate::pty_proxy::detach::{
    all_in_report, byte_fields, bytes_as_chars, enhanced_match, first_number, first_separator,
    parse_u32, EnhancedKeyMatch,
};
use crate::pty_proxy::screen::last_size;
use crate::pty_proxy::session::{
    accept_step, combined_text, AcceptEvent, AcceptStage, AcceptView, AttachedClient, PtyState,
};
use crate::text::{decimal, has_sub, is_blank, law_parse_decimal, trim_end};
use vstd::prelude::*;
use vstd::string::StringSliceAdditionalSpecFns;

verus! {

// ---------------------------------------------------------------------------
// Messages
// ---------------------------------------------------------------------------

/// A handshake is four letters, then the rows and then the columns, each as two bytes with the more
/// significant one first; zeros stand for an unknown size.
pub proof fn law_handshake_layout(ws: Option<Winsize>)
    ensures
        ({
            let b = handshake_bytes(ws);
            &&& b.len() == 8
            &&& b[0] == 0x4e && b[1] == 0x4e && b[2] == 0x4f && b[3] == 0x41
            &&& ws is Some ==> b[4] * 256 + b[5] == (ws->0).ws_row && b[6] * 256 + b[7] == (
            ws->0).ws_col
            &&& ws is None ==> b[4] == 0 && b[5] == 0 && b[6] == 0 && b[7] == 0
        }),
{
}

/// Bytes are read as a handshake exactly where they begin with the four letters, and then as rows and
/// columns.
pub proof fn law_handshakes_are_read(b: Seq<u8>)
    requires
        b.len() == 8,
    ensures
        handshake_size(b) is Some <==> b[0] == 0x4e && b[1] == 0x4e && b[2] == 0x4f && b[3] == 0x41,
        handshake_size(b) is Some ==> (handshake_size(b)->0).ws_row == b[4] * 256 + b[5] && (
        handshake_size(b)->0).ws_col == b[6] * 256 + b[7],
{
    let m = crate::pty_proxy::attach::ATTACH_HANDSHAKE_MAGIC@;
    let t = b.take(4);
    assert(m.len() == 4 && m[0] == 0x4e && m[1] == 0x4e && m[2] == 0x4f && m[3] == 0x41);
    assert(t[0] == b[0] && t[1] == b[1] && t[2] == b[2] && t[3] == b[3]);
    if b[0] == 0x4e && b[1] == 0x4e && b[2] == 0x4f && b[3] == 0x41 {
        assert(t =~= m);
    }
}

/// A resize message is the rows and the columns, and none where one of them is zero.
pub proof fn law_resize_messages_are_read(b: Seq<u8>)
    requires
        b.len() == 4,
    ensures
        ({
            let (row, col) = (b[0] * 256 + b[1], b[2] * 256 + b[3]);
            &&& resize_size(b) is Some <==> row > 0 && col > 0
            &&& resize_size(b) is Some ==> (resize_size(b)->0).ws_row == row && (
            resize_size(b)->0).ws_col == col
        }),
{
}

/// The answer to a request to attach: zero lets the client in, one says that another is attached, and
/// two refuses it. Without an answer the session is gone where the other end hung up.
pub proof fn law_answers_to_attach(w: AckWait)
    ensures
        attach_ready(w) is Ok <==> w is Byte && w->Byte_0 == 0,
        w is Byte && w->Byte_0 == 1 ==> attach_ready(w) == Err::<(), ErrorView>(
            ErrorView::AttachBusy,
        ),
        w is Byte && w->Byte_0 == 2 ==> attach_ready(w) == Err::<(), ErrorView>(
            ErrorView::ConfigParse("Session attach was rejected by supervisor"@),
        ),
        w is NoByte && w->hung_up ==> attach_ready(w) == Err::<(), ErrorView>(
            ErrorView::SessionGone,
        ),
        detach_ready(w) is Ok <==> w is Byte && w->Byte_0 == 0,
{
}

/// The failures that mean that the other end has gone.
pub proof fn law_disconnects(e: IoFailure)
    ensures
        is_disconnect(e) <==> e == IoFailure::BrokenPipe || e == IoFailure::ConnectionAborted || e
            == IoFailure::ConnectionReset || e == IoFailure::NotConnected || e
            == IoFailure::UnexpectedEof,
        e == IoFailure::WouldBlock || e == IoFailure::Interrupted ==> !is_disconnect(e),
{
}

// ---------------------------------------------------------------------------
// Replay
// ---------------------------------------------------------------------------

/// A client of a session on the normal screen gets what the session wrote, behind the code that
/// erases the saved lines. One of a session on the alternate screen gets the code that enters it
/// first, and what is drawn last, where that shows something.
pub proof fn law_replays(raw: Seq<u8>, drawn: Seq<u8>, text: Seq<char>)
    requires
        raw.len() > 0,
    ensures
        replay(false, true, raw, drawn, text) == ERASE_NATIVE_SCROLLBACK.spec_bytes() + raw,
        !is_blank(text) ==> replay(true, true, raw, drawn, text)
            == ATTACH_SCREEN_ENTER_ESCAPE.spec_bytes() + (raw + drawn),
        is_blank(text) ==> replay(true, true, raw, drawn, text)
            == ATTACH_SCREEN_ENTER_ESCAPE.spec_bytes() + raw,
{
}

/// Before a session has written anything, a client gets the drawn screen alone.
pub proof fn law_replay_before_output(drawn: Seq<u8>, text: Seq<char>)
    ensures
        replay(false, false, Seq::empty(), drawn, text) == drawn,
        replay(true, false, Seq::empty(), drawn, text) == ATTACH_SCREEN_ENTER_ESCAPE.spec_bytes()
            + drawn,
{
}

/// Behind output that enters the alternate screen a terminal is on it, and behind output that leaves
/// it, it is not, whatever came before.
pub proof fn law_toggles(on: bool, before: Seq<u8>)
    requires
        !before.contains(0x1b),
    ensures
        scan(on, before + seq![0x1b, 0x5b, 0x3f, 0x31, 0x30, 0x34, 0x39, 0x68]).0,
        !scan(on, before + seq![0x1b, 0x5b, 0x3f, 0x31, 0x30, 0x34, 0x39, 0x6c]).0,
    decreases before.len(),
{
    let e: Seq<u8> = seq![0x1b, 0x5b, 0x3f, 0x31, 0x30, 0x34, 0x39, 0x68];
    let x: Seq<u8> = seq![0x1b, 0x5b, 0x3f, 0x31, 0x30, 0x34, 0x39, 0x6c];
    if before.len() == 0 {
        assert(before + e =~= e);
        assert(before + x =~= x);
        assert(e.subrange(0, 8) =~= e);
        assert(x.subrange(0, 8) =~= x);
        assert(e =~= enter_toggle());
        assert(x =~= exit_toggle());
        assert(toggle_at(e, 0, enter_toggle()));
        assert(toggle_at(x, 0, exit_toggle()));
        assert(x[7] != enter_toggle()[7]);
        assert(!toggle_at(x, 0, enter_toggle()));
        assert(e.skip(8).len() == 0 && x.skip(8).len() == 0);
        assert(scan(true, e.skip(8)).0);
        assert(!scan(false, x.skip(8)).0);
    } else {
        let rest = before.skip(1);
        assert(before.contains(before[0]));
        assert forall|b: u8| rest.contains(b) implies before.contains(b) by {
            let i = choose|i: int| 0 <= i < rest.len() && rest[i] == b;
            assert(before[i + 1] == b);
        }
        law_toggles(on, rest);
        let (s, t) = (before + e, before + x);
        assert(s.skip(1) =~= rest + e);
        assert(t.skip(1) =~= rest + x);
        assert(s[0] != 0x1b && t[0] != 0x1b);
        assert(s.subrange(0, 8)[0] == s[0] && t.subrange(0, 8)[0] == t[0]);
        assert(enter_toggle()[0] == 0x1b && exit_toggle()[0] == 0x1b);
    }
}

// ---------------------------------------------------------------------------
// Sessions
// ---------------------------------------------------------------------------

/// Of what a session writes the last eight mebibytes are kept, in order, and nothing else about its
/// clients changes.
pub proof fn law_kept_output(st: PtyState, bytes: Seq<u8>)
    requires
        st.scrollback.len() <= 8 * 1024 * 1024,
    ensures
        ({
            let all = st.scrollback + bytes;
            let kept = st.recorded(bytes).scrollback;
            &&& all.len() <= 8 * 1024 * 1024 ==> kept == all
            &&& all.len() > 8 * 1024 * 1024 ==> kept == all.skip(all.len() - 8 * 1024 * 1024)
            &&& st.recorded(bytes).client == st.client
            &&& st.recorded(bytes).detach == st.detach
        }),
{
    if bytes.len() == 0 {
        assert(st.scrollback + bytes =~= st.scrollback);
    }
}

/// A size in which no dimension is zero is the one that the screen has afterwards; any other changes
/// nothing.
pub proof fn law_sizes(st: PtyState, ws: Winsize)
    ensures
        ws.ws_row > 0 && ws.ws_col > 0 ==> last_size(st.sized(ws).history) == (ws.ws_row, ws.ws_col),
        ws.ws_row == 0 || ws.ws_col == 0 ==> st.sized(ws) == st,
        st.sized(ws).client == st.client,
        st.sized(ws).scrollback == st.scrollback,
{
}

/// Detaching leaves nobody attached and no channel for sizes; a terminal of the supervisor's own is
/// no longer in raw mode; output and the sequence that detaches stay.
pub proof fn law_detaching(st: PtyState)
    ensures
        ({
            let d = st.detached();
            &&& d.client is None
            &&& !d.resize_channel
            &&& st.client == Some(AttachedClient::Terminal) ==> !d.terminal_raw
            &&& st.client != Some(AttachedClient::Terminal) ==> d.terminal_raw == st.terminal_raw
            &&& d.scrollback == st.scrollback
            &&& d.history == st.history
            &&& d.detach.sequence == st.detach.sequence
            &&& d.detach.requested == st.detach.requested
            &&& d.detach.matched == 0 && d.detach.escape.len() == 0
        }),
{
}

/// A client is let in step by step: connected, found to be one that may attach, asking to, with a
/// handshake, and with a channel for sizes. Then it is the attached one.
pub proof fn law_clients_are_let_in(st: PtyState, handshake: [u8; 8])
    requires
        st.accepting == AcceptStage::Listening,
        st.client is None,
        handshake_size(handshake@) is Some,
    ensures
        ({
            let (s1, a1) = accept_step(st, AcceptEvent::Connected { made_blocking: true });
            let (s2, a2) = accept_step(s1, AcceptEvent::Authenticated(true));
            let (s3, a3) = accept_step(s2, AcceptEvent::Request(Some(0)));
            let (s4, a4) = accept_step(s3, AcceptEvent::Handshake(Some(handshake)));
            let (s5, a5) = accept_step(s4, AcceptEvent::ChannelMade(true));
            let (s6, a6) = accept_step(s5, AcceptEvent::ChannelSent(true));
            let (s7, a7) = accept_step(s6, AcceptEvent::Settled(true));
            &&& a1 is Authenticate && a2 is ReadRequest && a3 is ReadHandshake && a4 is MakeChannel
            &&& a5 is SendChannel && a6 == AcceptView::Replay(s5.replay()) && a7 is Attached
            &&& s6.client is None
            &&& s7.client == Some(AttachedClient::Socket) && s7.resize_channel
            &&& s7.scrollback == st.scrollback
            &&& s7.history == st.sized(handshake_size(handshake@)->0).history
            &&& s7.accepting == AcceptStage::Listening
        }),
{
}

/// A connection is refused: with two where the peer may not attach, asks for something unknown or
/// says nothing that can be read; with one where another client is attached. Nothing else changes.
pub proof fn law_refusals(st: PtyState, kind: Option<u8>, ok: bool)
    ensures
        st.accepting == AcceptStage::Authenticating ==> (accept_step(
            st,
            AcceptEvent::Authenticated(false),
        ).1 == AcceptView::Refuse(Some(2u8)) && accept_step(
            st,
            AcceptEvent::Authenticated(false),
        ).0.client == st.client),
        st.accepting == AcceptStage::Requesting && st.client is Some ==> accept_step(
            st,
            AcceptEvent::Request(Some(0)),
        ).1 == AcceptView::Refuse(Some(1u8)) && accept_step(
            st,
            AcceptEvent::Request(Some(0)),
        ).0.client == st.client,
        st.accepting == AcceptStage::Requesting && kind != Some(0u8) && kind != Some(1u8)
            ==> accept_step(st, AcceptEvent::Request(kind)).1 == AcceptView::Refuse(Some(2u8)),
        st.accepting == AcceptStage::ShakingHands ==> accept_step(st, AcceptEvent::Handshake(None)).1
            == AcceptView::Refuse(Some(2u8)),
        st.accepting == AcceptStage::Settling && !ok ==> accept_step(
            st,
            AcceptEvent::Settled(ok),
        ).0.client == st.client,
{
}

/// A request to detach detaches whoever is attached, and says whether the supervisor's own terminal
/// was, and has to be put back.
pub proof fn law_requests_to_detach(st: PtyState)
    requires
        st.accepting == AcceptStage::Requesting,
    ensures
        ({
            let (s, a) = accept_step(st, AcceptEvent::Request(Some(1)));
            &&& s.client is None
            &&& s.scrollback == st.scrollback
            &&& a is DetachDone
            &&& a->done.terminal <==> st.client == Some(AttachedClient::Terminal)
            &&& a->done.restore <==> st.client == Some(AttachedClient::Terminal) && st.terminal_raw
        }),
{
}

/// The captured output is what the session wrote, and the screen where it shows something that is
/// not in it.
pub proof fn law_captured_output(written: Seq<char>, screen: Seq<char>)
    ensures
        is_blank(written) ==> combined_text(written, screen) == screen,
        !is_blank(written) && is_blank(screen) ==> combined_text(written, screen) == written,
        !is_blank(written) && has_sub(written, trim_end(screen)) ==> combined_text(written, screen)
            == written,
        !is_blank(written) && !is_blank(screen) && !has_sub(written, trim_end(screen))
            ==> combined_text(written, screen) == written + "\n"@ + screen,
{
}

// ---------------------------------------------------------------------------
// Clients
// ---------------------------------------------------------------------------

/// A client's loop ends well where the session ends or goes away, and with a failure where reading
/// or writing fails for another reason.
pub proof fn law_how_clients_end(st: LoopState, e: IoFailure, detail: String)
    ensures
        st.stage == Stage::SocketRead || st.stage == Stage::WarmRead ==> loop_step(
            st,
            LoopEvent::Read(ReadOutcome::Eof),
        ).1 is Finish,
        st.stage == Stage::SocketRead || st.stage == Stage::WarmRead ==> {
            let a = loop_step(st, LoopEvent::Read(ReadOutcome::Failed(e, detail))).1;
            &&& is_disconnect(e) ==> a is Finish
            &&& !is_disconnect(e) ==> a is Fail
        },
        st.stage == Stage::StdinWrite ==> {
            let a = loop_step(st, LoopEvent::Written(WriteOutcome::Failed(e, detail))).1;
            &&& is_disconnect(e) ==> a is Finish
            &&& !is_disconnect(e) ==> a is Fail
        },
        st.stage == Stage::StdinRead ==> loop_step(st, LoopEvent::Read(ReadOutcome::Eof)).1 is Finish,
{
}

/// A changed window is told to the session, once and only where there is a channel for it.
pub proof fn law_windows_are_told(st: LoopState, ws: Winsize)
    requires
        st.stage == Stage::Window,
    ensures
        ({
            let (s, a) = loop_step(st, LoopEvent::Window(Some(ws)));
            let changed = st.last_winsize is None || (st.last_winsize->0).ws_row != ws.ws_row || (
            st.last_winsize->0).ws_col != ws.ws_col;
            &&& a == ActionView::SendResize(ws) <==> st.has_channel && changed
            &&& st.has_channel && changed ==> s.last_winsize == Some(ws)
            &&& !(st.has_channel && changed) ==> a is ReadClock
        }),
{
}

/// While a client is warming up only the session is waited for; afterwards its terminal is too, and
/// what is ready is dealt with in the order terminal, session, window.
pub proof fn law_what_clients_wait_for(st: LoopState, stdin: bool, socket: bool, hung_up: bool, resize: bool)
    ensures
        st.stage == Stage::Clock ==> loop_step(st, LoopEvent::Clock { warming_up: true }).1
            is PollSocket,
        st.stage == Stage::Clock ==> loop_step(st, LoopEvent::Clock { warming_up: false }).1
            is PollAll,
        st.stage == Stage::Poll ==> {
            let a = loop_step(st, LoopEvent::Ready { stdin, socket, hung_up, resize }).1;
            &&& stdin ==> a is ReadStdin
            &&& !stdin && socket ==> a is ReadSocket
            &&& !stdin && !socket && hung_up ==> a is Finish
            &&& !stdin && !socket && !hung_up && resize ==> a is QueryWindow
            &&& !stdin && !socket && !hung_up && !resize ==> a is ReadClock
        },
{
}

// ---------------------------------------------------------------------------
// Enhanced keys
// ---------------------------------------------------------------------------

/// A number in decimal, as bytes.
pub open spec fn digit_bytes(n: nat) -> Seq<u8>
    decreases n,
{
    if n < 10 {
        seq![(48 + n) as u8]
    } else {
        digit_bytes(n / 10).push((48 + n % 10) as u8)
    }
}

proof fn lemma_digit_bytes(n: nat)
    ensures
        bytes_as_chars(digit_bytes(n)) == decimal(n),
        digit_bytes(n).len() > 0,
        forall|i: int| 0 <= i < digit_bytes(n).len() ==> 48 <= #[trigger] digit_bytes(n)[i] <= 57,
    decreases n,
{
    if n < 10 {
        assert(((48 + n) as u8) as char == ('0' as u32 + n) as char);
        assert(bytes_as_chars(digit_bytes(n)) =~= decimal(n));
    } else {
        lemma_digit_bytes(n / 10);
        let d = digit_bytes(n / 10);
        assert(((48 + n % 10) as u8) as char == ('0' as u32 + n % 10) as char);
        assert(bytes_as_chars(digit_bytes(n)) =~= bytes_as_chars(d).push(
            ((48 + n % 10) as u8) as char,
        ));
    }
}

proof fn lemma_one_field(s: Seq<u8>, colon: bool)
    requires
        forall|i: int| 0 <= i < s.len() ==> 48 <= #[trigger] s[i] <= 57,
    ensures
        first_separator(s, colon) == s.len(),
        byte_fields(s, colon) == seq![s],
    decreases s.len(),
{
    if s.len() > 0 {
        let rest = s.skip(1);
        assert forall|i: int| 0 <= i < rest.len() implies 48 <= #[trigger] rest[i] <= 57 by {
            assert(rest[i] == s[i + 1]);
        }
        assert(48 <= s[0] <= 57);
        lemma_one_field(rest, colon);
    }
}

/// A report of a code without modifiers, as `CSI code u`, is the visible key of that code, and no
/// other.
pub proof fn law_reports_of_keys(code: nat, key: u8)
    requires
        code <= u32::MAX,
        32 <= key <= 126,
    ensures
        ({
            let report = seq![0x1bu8, 0x5bu8] + digit_bytes(code) + seq![0x75u8];
            &&& enhanced_match(report, key) == EnhancedKeyMatch::Matched <==> code == key
            &&& enhanced_match(report, key) == EnhancedKeyMatch::Invalid <==> code != key
        }),
{
    let d = digit_bytes(code);
    lemma_digit_bytes(code);
    let report = seq![0x1bu8, 0x5bu8] + d + seq![0x75u8];
    assert(report.subrange(2, report.len() - 1) =~= d);
    assert(report.last() == 0x75);
    lemma_one_field(d, true);
    law_parse_decimal(code, u32::MAX as nat);
    assert(parse_u32(d) == Some(code));
    assert(all_in_report(d, false));
    let fields = byte_fields(d, true);
    assert(fields[0] == d);
    assert(fields.skip(1).len() == 0);
    assert(first_number(fields.skip(1)) is None);
}

proof fn lemma_first_field(a: Seq<u8>, b: Seq<u8>, colon: bool)
    requires
        forall|i: int| 0 <= i < a.len() ==> 48 <= #[trigger] a[i] <= 57,
    ensures
        first_separator(a + seq![59u8] + b, colon) == a.len(),
        byte_fields(a + seq![59u8] + b, colon) == seq![a] + byte_fields(b, colon),
    decreases a.len(),
{
    let s = a + seq![59u8] + b;
    if a.len() > 0 {
        let rest = a.skip(1);
        assert forall|i: int| 0 <= i < rest.len() implies 48 <= #[trigger] rest[i] <= 57 by {
            assert(rest[i] == a[i + 1]);
        }
        assert(48 <= a[0] <= 57);
        lemma_first_field(rest, b, colon);
        assert(s.skip(1) =~= rest + seq![59u8] + b);
        assert(s[0] == a[0]);
    } else {
        assert(s[0] == 59);
    }
    assert(s.take(a.len() as int) =~= a);
    assert(s.skip(a.len() as int + 1) =~= b);
}

/// A report is on a key: unmodified on a visible key or space of that code, and with control on a
/// control key whose letter, of either case, or sign has that code.
pub open spec fn is_report_of(key: u8, code: nat, modifiers: nat) -> bool {
    ||| modifiers == 1 && code == key && 32 <= key <= 126
    ||| modifiers == 5 && 1 <= key <= 26 && (code == key + 64 || code == key + 96)
    ||| modifiers == 5 && 27 <= key <= 31 && code == key + 64
}

/// A report with modifiers, as `CSI code ; modifiers u` or as `CSI 27 ; modifiers ; code ~`, is the
/// key that it is on, and no other.
pub proof fn law_reports_of_modified_keys(code: nat, modifiers: nat, key: u8)
    requires
        code <= u32::MAX,
        modifiers <= u32::MAX,
    ensures
        ({
            let u = seq![0x1bu8, 0x5bu8] + (digit_bytes(code) + seq![59u8] + digit_bytes(modifiers))
                + seq![0x75u8];
            let t = seq![0x1bu8, 0x5bu8] + (seq![50u8, 55u8] + seq![59u8] + (digit_bytes(modifiers)
                + seq![59u8] + digit_bytes(code))) + seq![0x7eu8];
            &&& enhanced_match(u, key) == EnhancedKeyMatch::Matched <==> is_report_of(
                key,
                code,
                modifiers,
            )
            &&& enhanced_match(t, key) == EnhancedKeyMatch::Matched <==> is_report_of(
                key,
                code,
                modifiers,
            )
        }),
{
    let (c, m) = (digit_bytes(code), digit_bytes(modifiers));
    lemma_digit_bytes(code);
    lemma_digit_bytes(modifiers);
    law_parse_decimal(code, u32::MAX as nat);
    law_parse_decimal(modifiers, u32::MAX as nat);
    assert(parse_u32(c) == Some(code) && parse_u32(m) == Some(modifiers));
    let body = c + seq![59u8] + m;
    let u = seq![0x1bu8, 0x5bu8] + body + seq![0x75u8];
    assert(u.subrange(2, u.len() - 1) =~= body);
    lemma_first_field(c, m, true);
    lemma_one_field(m, true);
    let fields = byte_fields(body, true);
    assert(fields =~= seq![c, m]);
    assert(fields.skip(1) =~= seq![m]);
    assert(first_number(fields.skip(1)) == Some(modifiers));
    assert(all_in_report(body, false));
    let tail = m + seq![59u8] + c;
    let head = seq![50u8, 55u8];
    let body2 = head + seq![59u8] + tail;
    let t = seq![0x1bu8, 0x5bu8] + body2 + seq![0x7eu8];
    assert(t.subrange(2, t.len() - 1) =~= body2);
    lemma_first_field(head, tail, false);
    lemma_first_field(m, c, false);
    lemma_one_field(c, false);
    assert(byte_fields(body2, false) =~= seq![head, m, c]);
}

} // verus!
