//! The attach protocol: what the client of a session and its supervisor say to each other, and
//! what is written to a terminal when a client comes and goes.

use crate::error::{ErrorView, NonoError};
use crate::text::{concat3, concat5, copy_str, decimal, is_blank, str_is_blank, usize_to_string};
use vstd::prelude::*;
use vstd::string::StringSliceAdditionalSpecFns;

verus! {

pub const ATTACH_HANDSHAKE_MAGIC: [u8; 4] = [0x4e, 0x4e, 0x4f, 0x41];

pub const ATTACH_HANDSHAKE_LEN: usize = 8;

pub const RESIZE_MESSAGE_LEN: usize = 4;

pub const ATTACH_ACK_OK: u8 = 0;

pub const ATTACH_ACK_BUSY: u8 = 1;

pub const ATTACH_ACK_DENIED: u8 = 2;

pub const ATTACH_REQUEST_ATTACH: u8 = 0;

pub const ATTACH_REQUEST_DETACH: u8 = 1;

/// Reset of attributes, character sets, scroll region and origin mode; then the alternate screen,
/// with the cursor shown, cleared.
pub const ATTACH_SCREEN_ENTER_ESCAPE: &'static str = "\x1b[0m\x1b(B\x1b)B\x0f\x1b[r\x1b[?6l\x1b[?1049h\x1b[?25h\x1b[2J\x1b[H";

/// Keyboard, mouse, focus and paste modes off, normal cursor keys and keypad, cursor shown.
pub const TERMINAL_RESTORE_NORMAL: &'static str = "\x1b[<u\x1b[>0n\x1b[>1n\x1b[>2n\x1b[>3n\x1b[>4n\x1b[>6n\x1b[>7n\x1b[?1000l\x1b[?1002l\x1b[?1003l\x1b[?1005l\x1b[?1006l\x1b[?1015l\x1b[?1004l\x1b[?2004l\x1b[?1l\x1b>\x1b[?25h";

/// Keyboard, mouse, focus and paste modes off, alternate screen left, cursor shown.
pub const TERMINAL_RESTORE_ESCAPE: &'static str = "\x1b[<u\x1b[>0n\x1b[>1n\x1b[>2n\x1b[>3n\x1b[>4n\x1b[>6n\x1b[>7n\x1b[?1000l\x1b[?1002l\x1b[?1003l\x1b[?1005l\x1b[?1006l\x1b[?1015l\x1b[?1004l\x1b[?2004l\x1b[?1049l\x1b[?25h";

/// All of these, and the screen cleared.
pub const TERMINAL_RESTORE_AND_CLEAR_ESCAPE: &'static str = "\x1b[<u\x1b[>0n\x1b[>1n\x1b[>2n\x1b[>3n\x1b[>4n\x1b[>6n\x1b[>7n\x1b[?1000l\x1b[?1002l\x1b[?1003l\x1b[?1005l\x1b[?1006l\x1b[?1015l\x1b[?1004l\x1b[?2004l\x1b[?1l\x1b>\x1b[?1049l\x1b[?25h\x1b[2J\x1b[H";

/// Clears the line of the cursor and everything below.
pub const CLEAR_PARENT_OUTPUT_AREA: &'static str = "\r\x1b[K\x1b[J";

/// Erases the lines that the terminal has saved, without touching the visible ones.
pub const ERASE_NATIVE_SCROLLBACK: &'static str = "\x1b[3J";

pub const DETACH_NOTICE: &'static str = "\r\n[nono] Session detached.\r\n";

// ---------------------------------------------------------------------------
// Window sizes
// ---------------------------------------------------------------------------

/// The size of a terminal window, in cells and in pixels.
#[derive(Clone, Copy, Debug, PartialEq, Eq, Structural)]
pub struct Winsize {
    pub ws_row: u16,
    pub ws_col: u16,
    pub ws_xpixel: u16,
    pub ws_ypixel: u16,
}

/// The size that the system reported, where the call succeeded and no dimension is zero.
pub fn usable_winsize(call_succeeded: bool, ws: Winsize) -> (r: Option<Winsize>)
    ensures
        r == (if call_succeeded && ws.ws_row > 0 && ws.ws_col > 0 {
            Some(ws)
        } else {
            None
        }),
{
    if call_succeeded && ws.ws_col > 0 && ws.ws_row > 0 {
        Some(ws)
    } else {
        None
    }
}

/// Whether a client must report `now` after it last reported `last`.
pub fn resize_needed(last: Option<Winsize>, now: Winsize) -> (r: bool)
    ensures
        r == match last {
            Some(l) => l.ws_row != now.ws_row || l.ws_col != now.ws_col,
            None => true,
        },
{
    match last {
        Some(l) => l.ws_row != now.ws_row || l.ws_col != now.ws_col,
        None => true,
    }
}

/// Two bytes, the more significant first.
pub open spec fn be_bytes(n: u16) -> Seq<u8> {
    seq![(n / 256) as u8, (n % 256) as u8]
}

pub open spec fn be_value(hi: u8, lo: u8) -> u16 {
    (hi * 256 + lo) as u16
}

/// Rows and columns of a size that may be unknown.
pub open spec fn rows_cols(ws: Option<Winsize>) -> (u16, u16) {
    match ws {
        Some(w) => (w.ws_row, w.ws_col),
        None => (0, 0),
    }
}

/// The magic, the rows and the columns.
pub open spec fn handshake_bytes(ws: Option<Winsize>) -> Seq<u8> {
    ATTACH_HANDSHAKE_MAGIC@ + be_bytes(rows_cols(ws).0) + be_bytes(rows_cols(ws).1)
}

/// What a handshake says.
pub open spec fn handshake_size(buf: Seq<u8>) -> Option<Winsize> {
    if buf.take(4) == ATTACH_HANDSHAKE_MAGIC@ {
        Some(
            Winsize {
                ws_row: be_value(buf[4], buf[5]),
                ws_col: be_value(buf[6], buf[7]),
                ws_xpixel: 0,
                ws_ypixel: 0,
            },
        )
    } else {
        None
    }
}

/// What a resize message says; a zero dimension makes it no size.
pub open spec fn resize_size(buf: Seq<u8>) -> Option<Winsize> {
    let row = be_value(buf[0], buf[1]);
    let col = be_value(buf[2], buf[3]);
    if row == 0 || col == 0 {
        None
    } else {
        Some(Winsize { ws_row: row, ws_col: col, ws_xpixel: 0, ws_ypixel: 0 })
    }
}

pub fn encode_attach_handshake(winsize: Option<Winsize>) -> (r: [u8; 8])
    ensures
        r@ == handshake_bytes(winsize),
{
    let (row, col): (u16, u16) = match winsize {
        Some(ws) => (ws.ws_row, ws.ws_col),
        None => (0, 0),
    };
    let m = ATTACH_HANDSHAKE_MAGIC;
    let r: [u8; 8] = [
        m[0],
        m[1],
        m[2],
        m[3],
        (row / 256) as u8,
        (row % 256) as u8,
        (col / 256) as u8,
        (col % 256) as u8,
    ];
    assert(r@ =~= handshake_bytes(winsize));
    r
}

/// The request byte and the handshake.
pub fn encode_attach_request_frame(winsize: Option<Winsize>) -> (r: [u8; 9])
    ensures
        r@ == seq![ATTACH_REQUEST_ATTACH] + handshake_bytes(winsize),
{
    let h = encode_attach_handshake(winsize);
    let r: [u8; 9] = [ATTACH_REQUEST_ATTACH, h[0], h[1], h[2], h[3], h[4], h[5], h[6], h[7]];
    assert(r@ =~= seq![ATTACH_REQUEST_ATTACH] + handshake_bytes(winsize));
    r
}

fn be_join(hi: u8, lo: u8) -> (r: u16)
    ensures
        r == be_value(hi, lo),
{
    (hi as u16) * 256 + (lo as u16)
}

pub fn decode_attach_handshake(buf: &[u8; 8]) -> (r: Option<Winsize>)
    ensures
        r == handshake_size(buf@),
{
    let m = ATTACH_HANDSHAKE_MAGIC;
    let ghost front = buf@.take(4);
    assert(front[0] == buf@[0] && front[1] == buf@[1] && front[2] == buf@[2] && front[3] == buf@[3]);
    if buf[0] != m[0] || buf[1] != m[1] || buf[2] != m[2] || buf[3] != m[3] {
        return None;
    }
    assert(front =~= ATTACH_HANDSHAKE_MAGIC@);
    Some(
        Winsize {
            ws_row: be_join(buf[4], buf[5]),
            ws_col: be_join(buf[6], buf[7]),
            ws_xpixel: 0,
            ws_ypixel: 0,
        },
    )
}

pub fn encode_resize_message(winsize: Winsize) -> (r: [u8; 4])
    ensures
        r@ == be_bytes(winsize.ws_row) + be_bytes(winsize.ws_col),
{
    let r: [u8; 4] = [
        (winsize.ws_row / 256) as u8,
        (winsize.ws_row % 256) as u8,
        (winsize.ws_col / 256) as u8,
        (winsize.ws_col % 256) as u8,
    ];
    assert(r@ =~= be_bytes(winsize.ws_row) + be_bytes(winsize.ws_col));
    r
}

pub fn decode_resize_message(buf: &[u8; 4]) -> (r: Option<Winsize>)
    ensures
        r == resize_size(buf@),
{
    let ws_row: u16 = be_join(buf[0], buf[1]);
    let ws_col: u16 = be_join(buf[2], buf[3]);
    if ws_row == 0 || ws_col == 0 {
        return None;
    }
    Some(Winsize { ws_row, ws_col, ws_xpixel: 0, ws_ypixel: 0 })
}

/// A handshake is read back as the size in cells that was written, zero for an unknown one.
pub proof fn law_handshake_round_trip(ws: Option<Winsize>)
    ensures
        handshake_size(handshake_bytes(ws)) == Some(
            Winsize {
                ws_row: rows_cols(ws).0,
                ws_col: rows_cols(ws).1,
                ws_xpixel: 0,
                ws_ypixel: 0,
            },
        ),
{
    let b = handshake_bytes(ws);
    assert(b.take(4) =~= ATTACH_HANDSHAKE_MAGIC@);
}

/// A resize message is read back as the size in cells that was written, where no dimension is zero.
pub proof fn law_resize_round_trip(ws: Winsize)
    requires
        ws.ws_row > 0,
        ws.ws_col > 0,
    ensures
        resize_size(be_bytes(ws.ws_row) + be_bytes(ws.ws_col)) == Some(
            Winsize { ws_row: ws.ws_row, ws_col: ws.ws_col, ws_xpixel: 0, ws_ypixel: 0 },
        ),
{
}

// ---------------------------------------------------------------------------
// Replay
// ---------------------------------------------------------------------------

/// The history that a new client gets, without what is written before it. On the normal screen
/// that is what the session wrote; on the alternate one the drawn screen follows, unless it shows
/// nothing. Before any output it is the drawn screen.
pub open spec fn replay_body(
    alternate: bool,
    raw: Seq<u8>,
    drawn: Seq<u8>,
    text: Seq<char>,
) -> Seq<u8> {
    if raw.len() == 0 {
        drawn
    } else if !alternate || is_blank(text) {
        raw
    } else {
        raw + drawn
    }
}

/// All that a new client gets: the alternate screen is entered only where the session is on it,
/// and the terminal's saved lines are erased only where there is history to replay.
pub open spec fn replay(
    alternate: bool,
    has_history: bool,
    raw: Seq<u8>,
    drawn: Seq<u8>,
    text: Seq<char>,
) -> Seq<u8> {
    let body = replay_body(alternate, raw, drawn, text);
    if alternate {
        ATTACH_SCREEN_ENTER_ESCAPE.spec_bytes() + body
    } else if has_history {
        ERASE_NATIVE_SCROLLBACK.spec_bytes() + body
    } else {
        body
    }
}

pub fn compose_replay_body(
    alternate_screen_active: bool,
    raw_scrollback: Vec<u8>,
    rendered_snapshot: Vec<u8>,
    rendered_plaintext: &str,
) -> (r: Vec<u8>)
    ensures
        r@ == replay_body(
            alternate_screen_active,
            raw_scrollback@,
            rendered_snapshot@,
            rendered_plaintext@,
        ),
{
    if raw_scrollback.len() == 0 {
        return rendered_snapshot;
    }
    if !alternate_screen_active {
        return raw_scrollback;
    }
    if rendered_snapshot.len() == 0 || str_is_blank(rendered_plaintext) {
        assert(raw_scrollback@ + rendered_snapshot@ =~= raw_scrollback@ || is_blank(
            rendered_plaintext@,
        ));
        raw_scrollback
    } else {
        let mut out = raw_scrollback;
        let mut tail = rendered_snapshot;
        out.append(&mut tail);
        out
    }
}

/// The bytes of `prefix` and then `body`.
fn prefixed(prefix: &str, body: Vec<u8>) -> (r: Vec<u8>)
    ensures
        r@ == prefix.spec_bytes() + body@,
{
    let mut out = prefix.as_bytes_vec();
    let mut tail = body;
    out.append(&mut tail);
    out
}

pub fn select_attach_replay_bytes(
    alternate_screen_active: bool,
    raw_scrollback_present: bool,
    raw_scrollback: Vec<u8>,
    rendered_snapshot: Vec<u8>,
    rendered_plaintext: &str,
) -> (r: Vec<u8>)
    ensures
        r@ == replay(
            alternate_screen_active,
            raw_scrollback_present,
            raw_scrollback@,
            rendered_snapshot@,
            rendered_plaintext@,
        ),
{
    let body = compose_replay_body(
        alternate_screen_active,
        raw_scrollback,
        rendered_snapshot,
        rendered_plaintext,
    );
    if alternate_screen_active {
        prefixed(ATTACH_SCREEN_ENTER_ESCAPE, body)
    } else if raw_scrollback_present {
        prefixed(ERASE_NATIVE_SCROLLBACK, body)
    } else {
        body
    }
}

// ---------------------------------------------------------------------------
// What is written when a client goes
// ---------------------------------------------------------------------------

pub fn terminal_restore_escape(clear_screen: bool) -> (r: &'static [u8])
    ensures
        r@ == (if clear_screen {
            TERMINAL_RESTORE_AND_CLEAR_ESCAPE.spec_bytes()
        } else {
            TERMINAL_RESTORE_ESCAPE.spec_bytes()
        }),
{
    if clear_screen {
        TERMINAL_RESTORE_AND_CLEAR_ESCAPE.as_bytes()
    } else {
        TERMINAL_RESTORE_ESCAPE.as_bytes()
    }
}

/// What leaves the screen of a session: on the normal screen nothing that exits the alternate one.
pub fn leave_attach_screen(in_alt_screen: bool) -> (r: &'static [u8])
    ensures
        r@ == (if in_alt_screen {
            TERMINAL_RESTORE_ESCAPE.spec_bytes()
        } else {
            TERMINAL_RESTORE_NORMAL.spec_bytes()
        }),
{
    if in_alt_screen {
        terminal_restore_escape(false)
    } else {
        TERMINAL_RESTORE_NORMAL.as_bytes()
    }
}

/// What resets a terminal that was detached; it is cleared where the alternate screen was in use.
pub fn write_detach_terminal_reset(in_alt_screen: bool) -> (r: &'static [u8])
    ensures
        r@ == (if in_alt_screen {
            TERMINAL_RESTORE_AND_CLEAR_ESCAPE.spec_bytes()
        } else {
            TERMINAL_RESTORE_NORMAL.spec_bytes()
        }),
{
    if in_alt_screen {
        terminal_restore_escape(true)
    } else {
        TERMINAL_RESTORE_NORMAL.as_bytes()
    }
}

/// What scrolls the whole window into the terminal's saved lines before a client leaves a session
/// on the normal screen.
pub fn scroll_out(in_alt_screen: bool, window: Option<Winsize>) -> (r: Option<String>)
    ensures
        match r {
            Some(s) => !in_alt_screen && window is Some && window->0.ws_row > 0 && s@ == "\x1b["@
                + decimal(window->0.ws_row as nat) + "S"@,
            None => in_alt_screen || window is None || window->0.ws_row == 0,
        },
{
    if in_alt_screen {
        return None;
    }
    match window {
        Some(w) => if w.ws_row > 0 {
            let n = usize_to_string(w.ws_row as usize);
            Some(concat3("\x1b[", n.as_str(), "S"))
        } else {
            None
        },
        None => None,
    }
}

/// The lines that a client leaves behind, in faint text where the terminal has colours.
pub open spec fn detach_notice(session_id: Option<Seq<char>>, use_color: bool) -> Seq<Seq<char>> {
    let dim = if use_color {
        "\x1b[2m"@
    } else {
        ""@
    };
    let reset = if use_color {
        "\x1b[0m"@
    } else {
        ""@
    };
    match session_id {
        Some(id) => seq![
            ""@,
            dim + "Resume this session with:"@ + reset,
            dim + "  nono attach "@ + id + ""@ + reset,
        ],
        None => seq![""@, dim + "Detached from session."@ + reset],
    }
}

pub fn print_detach_notice(session_id: Option<&str>, use_color: bool) -> (r: Vec<String>)
    ensures
        crate::text::views(r@) == detach_notice(
            match session_id {
                Some(id) => Some(id@),
                None => None,
            },
            use_color,
        ),
{
    let dim: &str = if use_color {
        "\x1b[2m"
    } else {
        ""
    };
    let reset: &str = if use_color {
        "\x1b[0m"
    } else {
        ""
    };
    let mut out: Vec<String> = Vec::new();
    out.push(copy_str(""));
    match session_id {
        Some(id) => {
            out.push(concat3(dim, "Resume this session with:", reset));
            out.push(concat5(dim, "  nono attach ", id, "", reset));
        },
        None => {
            out.push(concat3(dim, "Detached from session.", reset));
        },
    }
    assert(crate::text::views(out@) =~= detach_notice(
        match session_id {
            Some(id) => Some(id@),
            None => None,
        },
        use_color,
    ));
    out
}

// ---------------------------------------------------------------------------
// Acknowledgements and connection failures
// ---------------------------------------------------------------------------

/// The kinds of input and output failure that are told apart.
#[derive(Clone, Copy, Debug, PartialEq, Eq, Structural)]
pub enum IoFailure {
    BrokenPipe,
    ConnectionAborted,
    ConnectionRefused,
    ConnectionReset,
    Interrupted,
    NotConnected,
    NotFound,
    UnexpectedEof,
    WouldBlock,
    Other,
}

/// The other end has gone.
pub open spec fn is_disconnect(e: IoFailure) -> bool {
    e == IoFailure::BrokenPipe || e == IoFailure::ConnectionAborted || e
        == IoFailure::ConnectionReset || e == IoFailure::NotConnected || e
        == IoFailure::UnexpectedEof
}

pub fn is_socket_disconnect(e: IoFailure) -> (r: bool)
    ensures
        r == is_disconnect(e),
{
    matches!(
        e,
        IoFailure::BrokenPipe
        | IoFailure::ConnectionAborted
        | IoFailure::ConnectionReset
        | IoFailure::NotConnected
        | IoFailure::UnexpectedEof
    )
}

/// Why connecting to the attach socket of a session failed, for people.
pub fn connect_failure(session_id: &str, e: IoFailure, detail: &str) -> (r: NonoError)
    ensures
        r@ == (if is_disconnect(e) || e == IoFailure::ConnectionRefused || e
            == IoFailure::NotFound {
            ErrorView::SessionGone
        } else {
            ErrorView::ConfigParse(
                "Failed to connect to session "@ + session_id@ + " attach socket: "@ + detail@,
            )
        }),
{
    if is_socket_disconnect(e) || matches!(e, IoFailure::ConnectionRefused | IoFailure::NotFound) {
        NonoError::SessionGone
    } else {
        NonoError::ConfigParse(
            crate::text::concat4(
                "Failed to connect to session ",
                session_id,
                " attach socket: ",
                detail,
            ),
        )
    }
}

/// Why sending failed; `what` names what was sent.
pub fn send_failure(what: &str, e: IoFailure, detail: &str) -> (r: NonoError)
    ensures
        r@ == (if is_disconnect(e) {
            ErrorView::SessionGone
        } else {
            ErrorView::ConfigParse("Failed to send "@ + what@ + ": "@ + detail@)
        }),
{
    if is_socket_disconnect(e) {
        NonoError::SessionGone
    } else {
        NonoError::ConfigParse(crate::text::concat4("Failed to send ", what, ": ", detail))
    }
}

/// Connecting is tried a second time exactly if the first try found the session gone.
pub fn should_retry_connect(first: &Result<(), NonoError>) -> (r: bool)
    ensures
        r == (first matches Err(e) && e@ == ErrorView::SessionGone),
{
    matches!(first, Err(NonoError::SessionGone))
}

/// What came of waiting for an acknowledgement.
pub enum AckWait {
    /// Waiting itself failed.
    PollFailed(String),
    TimedOut,
    /// Reading gave no byte; whether the other end hung up.
    NoByte { hung_up: bool },
    Byte(u8),
}

pub open spec fn attach_ready(w: AckWait) -> Result<(), ErrorView> {
    match w {
        AckWait::PollFailed(detail) => Err(
            ErrorView::SandboxInit("poll() error waiting for attach readiness: "@ + detail@),
        ),
        AckWait::TimedOut => Err(ErrorView::ConfigParse("Timed out waiting for session attach"@)),
        AckWait::NoByte { hung_up } => if hung_up {
            Err(ErrorView::SessionGone)
        } else {
            Err(ErrorView::ConfigParse("Failed to confirm session attach readiness"@))
        },
        AckWait::Byte(b) => if b == ATTACH_ACK_OK {
            Ok(())
        } else if b == ATTACH_ACK_BUSY {
            Err(ErrorView::AttachBusy)
        } else if b == ATTACH_ACK_DENIED {
            Err(ErrorView::ConfigParse("Session attach was rejected by supervisor"@))
        } else {
            Err(ErrorView::ConfigParse("Received invalid attach acknowledgement from supervisor"@))
        },
    }
}

pub open spec fn detach_ready(w: AckWait) -> Result<(), ErrorView> {
    match w {
        AckWait::PollFailed(detail) => Err(
            ErrorView::SandboxInit("poll() error waiting for detach acknowledgement: "@ + detail@),
        ),
        AckWait::TimedOut => Err(
            ErrorView::ConfigParse("Timed out waiting for session detach acknowledgement"@),
        ),
        AckWait::NoByte { hung_up: _ } => Err(
            ErrorView::ConfigParse("Failed to confirm session detach acknowledgement"@),
        ),
        AckWait::Byte(b) => if b == ATTACH_ACK_OK {
            Ok(())
        } else if b == ATTACH_ACK_DENIED {
            Err(ErrorView::ConfigParse("Session detach was rejected by supervisor"@))
        } else {
            Err(ErrorView::ConfigParse("Received invalid detach acknowledgement from supervisor"@))
        },
    }
}

/// A result with its failure as a view.
pub open spec fn outcome(r: Result<(), NonoError>) -> Result<(), ErrorView> {
    match r {
        Ok(()) => Ok(()),
        Err(e) => Err(e@),
    }
}

pub fn wait_for_attach_ready(w: AckWait) -> (r: Result<(), NonoError>)
    ensures
        outcome(r) == attach_ready(w),
{
    match w {
        AckWait::PollFailed(detail) => Err(
            NonoError::SandboxInit(
                crate::text::concat2("poll() error waiting for attach readiness: ", detail.as_str()),
            ),
        ),
        AckWait::TimedOut => Err(
            NonoError::ConfigParse(copy_str("Timed out waiting for session attach")),
        ),
        AckWait::NoByte { hung_up } => if hung_up {
            Err(NonoError::SessionGone)
        } else {
            Err(NonoError::ConfigParse(copy_str("Failed to confirm session attach readiness")))
        },
        AckWait::Byte(b) => if b == ATTACH_ACK_OK {
            Ok(())
        } else if b == ATTACH_ACK_BUSY {
            Err(NonoError::AttachBusy)
        } else if b == ATTACH_ACK_DENIED {
            Err(NonoError::ConfigParse(copy_str("Session attach was rejected by supervisor")))
        } else {
            Err(
                NonoError::ConfigParse(
                    copy_str("Received invalid attach acknowledgement from supervisor"),
                ),
            )
        },
    }
}

pub fn wait_for_detach_ready(w: AckWait) -> (r: Result<(), NonoError>)
    ensures
        outcome(r) == detach_ready(w),
{
    match w {
        AckWait::PollFailed(detail) => Err(
            NonoError::SandboxInit(
                crate::text::concat2(
                    "poll() error waiting for detach acknowledgement: ",
                    detail.as_str(),
                ),
            ),
        ),
        AckWait::TimedOut => Err(
            NonoError::ConfigParse(
                copy_str("Timed out waiting for session detach acknowledgement"),
            ),
        ),
        AckWait::NoByte { hung_up: _ } => Err(
            NonoError::ConfigParse(copy_str("Failed to confirm session detach acknowledgement")),
        ),
        AckWait::Byte(b) => if b == ATTACH_ACK_OK {
            Ok(())
        } else if b == ATTACH_ACK_DENIED {
            Err(NonoError::ConfigParse(copy_str("Session detach was rejected by supervisor")))
        } else {
            Err(
                NonoError::ConfigParse(
                    copy_str("Received invalid detach acknowledgement from supervisor"),
                ),
            )
        },
    }
}

/// Whether a peer may attach: it must be the same user, in the same user namespace.
pub fn authenticate_attach_peer(
    peer_uid: u32,
    peer_pid: u32,
    current_uid: u32,
    same_namespace: bool,
) -> (r: Result<(), NonoError>)
    ensures
        outcome(r) == (if peer_uid != current_uid {
            Err(
                ErrorView::ConfigParse(
                    "attach peer uid "@ + decimal(peer_uid as nat)
                        + " does not match current uid "@ + decimal(current_uid as nat),
                ),
            )
        } else if !same_namespace {
            Err(
                ErrorView::ConfigParse(
                    "attach peer pid "@ + decimal(peer_pid as nat)
                        + " is not in the current user namespace"@,
                ),
            )
        } else {
            Ok(())
        }),
{
    if peer_uid != current_uid {
        let a = usize_to_string(peer_uid as usize);
        let b = usize_to_string(current_uid as usize);
        Err(
            NonoError::ConfigParse(
                crate::text::concat4(
                    "attach peer uid ",
                    a.as_str(),
                    " does not match current uid ",
                    b.as_str(),
                ),
            ),
        )
    } else if !same_namespace {
        let a = usize_to_string(peer_pid as usize);
        Err(
            NonoError::ConfigParse(
                concat3("attach peer pid ", a.as_str(), " is not in the current user namespace"),
            ),
        )
    } else {
        Ok(())
    }
}

/// What stands at the path where the attach socket is to be made.
#[derive(Clone, Copy, Debug, PartialEq, Eq, Structural)]
pub enum AttachPathEntry {
    Nothing,
    Socket,
    OtherFile,
}

/// Whether what stands at the attach path is to be removed; only a socket may be replaced.
pub fn remove_stale_attach_socket(entry: AttachPathEntry, path: &str) -> (r: Result<
    bool,
    NonoError,
>)
    ensures
        match r {
            Ok(remove) => entry != AttachPathEntry::OtherFile && remove == (entry
                == AttachPathEntry::Socket),
            Err(e) => entry == AttachPathEntry::OtherFile && e@ == ErrorView::ConfigParse(
                "Refusing to replace non-socket attach path "@ + path@,
            ),
        },
{
    match entry {
        AttachPathEntry::Nothing => Ok(false),
        AttachPathEntry::Socket => Ok(true),
        AttachPathEntry::OtherFile => Err(
            NonoError::ConfigParse(
                crate::text::concat2("Refusing to replace non-socket attach path ", path),
            ),
        ),
    }
}

} // verus!
