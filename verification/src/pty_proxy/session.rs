//! The state of a session's terminal proxy: who is attached, what the session has written, and
//! what each event changes.

use crate::pty_proxy::attach::{
    decode_attach_handshake, decode_resize_message, handshake_size, leave_attach_screen, replay,
    resize_size, select_attach_replay_bytes, IoFailure, Winsize, ATTACH_ACK_BUSY,
    ATTACH_ACK_DENIED, ATTACH_REQUEST_ATTACH, ATTACH_REQUEST_DETACH,
    TERMINAL_RESTORE_ESCAPE, TERMINAL_RESTORE_NORMAL,
};
use crate::pty_proxy::detach::{
    detach_key_supports_enhanced_match, detach_run, detach_step,
    match_enhanced_key_sequence, second, sub_bytes, DetachState, EnhancedKeyMatch, ESC,
    MAX_ENHANCED_KEY_SEQUENCE_LEN,
};
use crate::pty_proxy::screen::{
    clamp_cells, drawn, last_size, screen_alternate, screen_codes, screen_cursor,
    screen_text, ScreenState, TermEvent,
};
use crate::text::{
    concat2, concat3, copy_str, decimal, has_sub, is_blank, str_contains, str_is_blank,
    str_trim_end, trim_end, usize_to_string,
};
use vstd::prelude::*;
use vstd::utf8::{encode_utf8, valid_utf8};
use vstd::string::StringSliceAdditionalSpecFns;

verus! {

/// How much of a session's output is kept for clients that attach later.
pub const SCROLLBACK_LIMIT_BYTES: usize = 8388608;

pub const DEFAULT_DETACH_SEQUENCE: [u8; 2] = [0x1d, 0x64];

/// Who is attached.
#[derive(Clone, Copy, Debug, PartialEq, Eq, Structural)]
pub enum AttachedClient {
    /// The terminal of the supervisor itself.
    Terminal,
    /// A client over the session's socket.
    Socket,
}

/// The state as a mathematical value.
#[verifier::ext_equal]
pub struct PtyState {
    pub session_id: Seq<char>,
    pub client: Option<AttachedClient>,
    /// A channel for window sizes from the client is open.
    pub resize_channel: bool,
    /// The terminal is in raw mode and its former settings are known.
    pub terminal_raw: bool,
    pub scrollback: Seq<u8>,
    pub history: Seq<TermEvent>,
    pub detach: DetachState,
    pub accepting: AcceptStage,
}

pub struct PtyProxy {
    pub session_id: String,
    pub client: Option<AttachedClient>,
    pub resize_channel: bool,
    pub terminal_raw: bool,
    /// The last output, replayed to new clients.
    pub scrollback: Vec<u8>,
    /// The screen that the output built up.
    pub screen: ScreenState,
    pub detach_sequence: Vec<u8>,
    pub pending_detach_match_len: usize,
    pub pending_detach_escape: Vec<u8>,
    pub detach_requested: bool,
    /// How far a connection has come that asks to attach.
    pub accepting: AcceptStage,
}

impl View for PtyProxy {
    type V = PtyState;

    open spec fn view(&self) -> PtyState {
        PtyState {
            session_id: self.session_id@,
            client: self.client,
            resize_channel: self.resize_channel,
            terminal_raw: self.terminal_raw,
            scrollback: self.scrollback@,
            history: self.screen.history(),
            detach: DetachState {
                sequence: self.detach_sequence@,
                matched: self.pending_detach_match_len as int,
                escape: self.pending_detach_escape@,
                requested: self.detach_requested,
            },
            accepting: self.accepting,
        }
    }
}

/// The last `n` bytes.
pub open spec fn last_bytes(s: Seq<u8>, n: nat) -> Seq<u8> {
    if s.len() <= n {
        s
    } else {
        s.skip(s.len() - n)
    }
}

impl PtyState {
    /// Nobody is attached and nothing of the detach sequence is held back.
    pub open spec fn detached(self) -> PtyState {
        PtyState {
            client: None,
            resize_channel: false,
            terminal_raw: if self.client == Some(AttachedClient::Terminal) {
                false
            } else {
                self.terminal_raw
            },
            detach: DetachState { matched: 0, escape: Seq::empty(), ..self.detach },
            ..self
        }
    }

    /// The session wrote `bytes`: the last output is kept, and the screen draws it, as far as the
    /// emulator can process it.
    pub open spec fn recorded(self, bytes: Seq<u8>) -> PtyState {
        if bytes.len() == 0 {
            self
        } else {
            PtyState {
                scrollback: last_bytes(self.scrollback + bytes, SCROLLBACK_LIMIT_BYTES as nat),
                history: drawn(self.history, bytes),
                ..self
            }
        }
    }

    /// The window of the client has this size: an unknown size or the current one changes nothing.
    pub open spec fn sized(self, ws: Winsize) -> PtyState {
        if ws.ws_row == 0 || ws.ws_col == 0 || last_size(self.history) == (ws.ws_row, ws.ws_col) {
            self
        } else {
            PtyState {
                history: self.history.push(TermEvent::Size(ws.ws_row, ws.ws_col)),
                ..self
            }
        }
    }

    /// What a client that attaches now gets first.
    pub open spec fn replay(self) -> Seq<u8> {
        replay(
            screen_alternate(self.history),
            self.scrollback.len() > 0,
            self.scrollback,
            screen_codes(self.history),
            screen_text(self.history),
        )
    }
}

/// The text that bytes hold, with a replacement for what is no UTF-8.
pub uninterp spec fn lossy_text(bytes: Seq<u8>) -> Seq<char>;

/// The standard library's `String::from_utf8_lossy`: a function of the bytes, and the text itself
/// where they are UTF-8.
#[verifier::external_body]
pub(crate) fn text_of_bytes(bytes: &[u8]) -> (r: String)
    ensures
        r@ == lossy_text(bytes@),
        valid_utf8(bytes@) ==> encode_utf8(r@) == bytes@,
{
    String::from_utf8_lossy(bytes).into_owned()
}

/// The captured output for diagnostics: what the session wrote, and the screen where that says
/// more.
pub open spec fn combined_text(scrollback: Seq<char>, screen: Seq<char>) -> Seq<char> {
    if is_blank(scrollback) {
        screen
    } else if is_blank(screen) || has_sub(scrollback, trim_end(screen)) {
        scrollback
    } else {
        scrollback + "\n"@ + screen
    }
}

pub fn combine_captured_text(scrollback: &str, screen: &str) -> (r: String)
    ensures
        r@ == combined_text(scrollback@, screen@),
{
    if str_is_blank(scrollback) {
        return copy_str(screen);
    }
    let trimmed = str_trim_end(screen);
    if str_is_blank(screen) || str_contains(scrollback, trimmed.as_str()) {
        return copy_str(scrollback);
    }
    concat3(scrollback, "\n", screen)
}

/// A character that shows.
pub fn has_visible_text(text: &str) -> (r: bool)
    ensures
        r == !is_blank(text@),
{
    !str_is_blank(text)
}

fn copy_bytes(v: &[u8]) -> (r: Vec<u8>)
    ensures
        r@ == v@,
{
    let r = sub_bytes(v, 0, v.len());
    assert(r@ =~= v@);
    r
}

fn push_bytes(v: &mut Vec<u8>, more: &[u8], count: usize)
    requires
        count <= more@.len(),
    ensures
        final(v)@ == old(v)@ + more@.take(count as int),
{
    let mut tail = sub_bytes(more, 0, count);
    assert(tail@ =~= more@.take(count as int));
    v.append(&mut tail);
}

// ---------------------------------------------------------------------------
// Life of the proxy
// ---------------------------------------------------------------------------

/// What detaching asks of the caller, who also records the session as detached.
#[derive(Clone, Copy, Debug, PartialEq, Eq, Structural)]
pub struct Detached {
    /// The client was the supervisor's own terminal.
    pub terminal: bool,
    /// The terminal's former settings are to be put back.
    pub restore: bool,
}

/// What to do before the supervisor prompts on its own terminal, in this order.
#[derive(Debug)]
pub struct PromptHandover {
    /// Bytes for the terminal.
    pub leave: Vec<u8>,
    /// Put the terminal's former settings back.
    pub restore: bool,
    /// End the line that the session left unfinished.
    pub newline: bool,
}

pub open spec fn leave_bytes(alternate: bool) -> Seq<u8> {
    if alternate {
        TERMINAL_RESTORE_ESCAPE.spec_bytes()
    } else {
        TERMINAL_RESTORE_NORMAL.spec_bytes()
    }
}

impl PtyProxy {
    pub open spec fn wf(self) -> bool {
        &&& self.screen.wf()
        &&& self@.detach.wf()
        &&& self.scrollback@.len() <= SCROLLBACK_LIMIT_BYTES
    }

    /// A proxy for a session that has written nothing. `master_size` is the size of its terminal,
    /// 24 by 80 where unknown; an absent or empty detach sequence means the default one.
    pub fn new(
        session_id: &str,
        master_size: Option<Winsize>,
        attach_initial_client: bool,
        raw_mode_entered: bool,
        detach_sequence: Option<&[u8]>,
    ) -> (r: Self)
        ensures
            r.wf(),
            r@ == (PtyState {
                session_id: session_id@,
                client: if attach_initial_client {
                    Some(AttachedClient::Terminal)
                } else {
                    None
                },
                resize_channel: false,
                terminal_raw: attach_initial_client && raw_mode_entered,
                scrollback: Seq::empty(),
                history: seq![
                    match master_size {
                        Some(ws) => TermEvent::Size(
                            clamp_cells(ws.ws_row as nat),
                            clamp_cells(ws.ws_col as nat),
                        ),
                        None => TermEvent::Size(24, 80),
                    },
                ],
                detach: DetachState {
                    sequence: match detach_sequence {
                        Some(s) => if s@.len() > 0 {
                            s@
                        } else {
                            DEFAULT_DETACH_SEQUENCE@
                        },
                        None => DEFAULT_DETACH_SEQUENCE@,
                    },
                    matched: 0,
                    escape: Seq::empty(),
                    requested: false,
                },
                accepting: AcceptStage::Listening,
            }),
    {
        let (rows, cols): (usize, usize) = match master_size {
            Some(ws) => (ws.ws_row as usize, ws.ws_col as usize),
            None => (24, 80),
        };
        let mut sequence: Vec<u8> = Vec::new();
        if let Some(s) = detach_sequence {
            sequence = copy_bytes(s);
        }
        if sequence.len() == 0 {
            let d = DEFAULT_DETACH_SEQUENCE;
            sequence.push(d[0]);
            sequence.push(d[1]);
            assert(sequence@ =~= DEFAULT_DETACH_SEQUENCE@);
        }
        let client = if attach_initial_client {
            Some(AttachedClient::Terminal)
        } else {
            None
        };
        let r = PtyProxy {
            session_id: copy_str(session_id),
            client,
            resize_channel: false,
            terminal_raw: attach_initial_client && raw_mode_entered,
            scrollback: Vec::new(),
            screen: ScreenState::new(rows, cols),
            detach_sequence: sequence,
            pending_detach_match_len: 0,
            pending_detach_escape: Vec::new(),
            detach_requested: false,
            accepting: AcceptStage::Listening,
        };
        r
    }

    fn clear_attachment(&mut self)
        requires
            old(self).wf(),
        ensures
            final(self).wf(),
            final(self)@ == (PtyState {
                client: None,
                resize_channel: false,
                detach: DetachState { matched: 0, escape: Seq::empty(), ..old(self)@.detach },
                ..old(self)@
            }),
    {
        self.client = None;
        self.resize_channel = false;
        self.pending_detach_match_len = 0;
        self.pending_detach_escape = Vec::new();
    }

    /// Detaches the client, if there is one.
    pub fn detach(&mut self) -> (r: Detached)
        requires
            old(self).wf(),
        ensures
            final(self).wf(),
            final(self)@ == old(self)@.detached(),
            r.terminal == (old(self)@.client == Some(AttachedClient::Terminal)),
            r.restore == (r.terminal && old(self)@.terminal_raw),
    {
        let terminal = matches!(self.client, Some(AttachedClient::Terminal));
        let restore = terminal && self.terminal_raw;
        if terminal {
            self.terminal_raw = false;
        }
        self.clear_attachment();
        Detached { terminal, restore }
    }

    /// Lets go of the supervisor's own terminal for a last prompt; nothing where that is not
    /// attached. An unfinished line of the session's is ended, but on the alternate screen, which
    /// disappears.
    pub fn release_terminal_for_prompt(&mut self) -> (r: Option<PromptHandover>)
        requires
            old(self).wf(),
        ensures
            final(self).wf(),
            match r {
                Some(h) => {
                    &&& old(self)@.client == Some(AttachedClient::Terminal)
                    &&& final(self)@ == old(self)@.detached()
                    &&& h.leave@ == leave_bytes(screen_alternate(old(self)@.history))
                    &&& h.restore == old(self)@.terminal_raw
                    &&& h.newline == (!screen_alternate(old(self)@.history) && screen_cursor(
                        old(self)@.history,
                    ).1 > 0)
                },
                None => {
                    &&& old(self)@.client != Some(AttachedClient::Terminal)
                    &&& final(self)@ == old(self)@
                },
            },
    {
        if !matches!(self.client, Some(AttachedClient::Terminal)) {
            return None;
        }
        let in_alt_screen = self.screen.alternate_screen_active();
        let leave = copy_bytes(leave_attach_screen(in_alt_screen));
        let restore = self.terminal_raw;
        let newline = !in_alt_screen && self.screen.cursor_position().1 > 0;
        self.terminal_raw = false;
        self.clear_attachment();
        Some(PromptHandover { leave, restore, newline })
    }

    /// Lets go of the supervisor's own terminal for a while; nothing where that is not attached.
    pub fn pause_terminal_for_prompt(&mut self) -> (r: Option<PromptHandover>)
        requires
            old(self).wf(),
        ensures
            final(self).wf(),
            match r {
                Some(h) => {
                    &&& old(self)@.client == Some(AttachedClient::Terminal)
                    &&& final(self)@ == (PtyState { terminal_raw: false, ..old(self)@ })
                    &&& h.leave@ == leave_bytes(screen_alternate(old(self)@.history))
                    &&& h.restore == old(self)@.terminal_raw
                    &&& !h.newline
                },
                None => {
                    &&& old(self)@.client != Some(AttachedClient::Terminal)
                    &&& final(self)@ == old(self)@
                },
            },
    {
        if !matches!(self.client, Some(AttachedClient::Terminal)) {
            return None;
        }
        let leave = copy_bytes(leave_attach_screen(self.screen.alternate_screen_active()));
        let restore = self.terminal_raw;
        self.terminal_raw = false;
        Some(PromptHandover { leave, restore, newline: false })
    }

    /// Whether the session is on the alternate screen.
    pub fn in_alt_screen(&self) -> (r: bool)
        ensures
            r == screen_alternate(self@.history),
    {
        self.screen.alternate_screen_active()
    }

    /// Whether the session has become interactive, which only the alternate screen shows for sure.
    pub fn is_interactive(&self) -> (r: bool)
        ensures
            r == screen_alternate(self@.history),
    {
        self.screen.alternate_screen_active()
    }

    /// Whether anything but white space is visible on the screen.
    pub fn has_visible_output(&self) -> (r: bool)
        ensures
            r == !is_blank(screen_text(self@.history)),
    {
        let text = self.screen.render_plaintext();
        has_visible_text(text.as_str())
    }

    /// The captured output as text.
    pub fn screen_plaintext(&self) -> (r: String)
        ensures
            r@ == combined_text(lossy_text(self@.scrollback), screen_text(self@.history)),
    {
        let scrollback = text_of_bytes(&self.scrollback);
        let screen = self.screen.render_plaintext();
        combine_captured_text(scrollback.as_str(), screen.as_str())
    }

    pub fn scrollback_snapshot(&self) -> (r: Vec<u8>)
        ensures
            r@ == screen_codes(self@.history),
    {
        self.screen.render()
    }

    /// What a client that attaches now gets first.
    pub fn attach_replay_bytes(&self) -> (r: Vec<u8>)
        ensures
            r@ == self@.replay(),
    {
        let plaintext = self.screen.render_plaintext();
        let raw = copy_bytes(&self.scrollback);
        let present = raw.len() > 0;
        select_attach_replay_bytes(
            self.screen.alternate_screen_active(),
            present,
            raw,
            self.scrollback_snapshot(),
            plaintext.as_str(),
        )
    }

    /// The file descriptors to poll, given those that exist; -1 stands for none.
    pub fn poll_fds(&self, master: i32, client: i32, listener: i32, resize: i32) -> (r: (
        i32,
        i32,
        i32,
        i32,
    ))
        ensures
            r.0 == master,
            r.1 == (if self@.client is Some {
                client as int
            } else {
                -1
            }),
            r.2 == listener,
            r.3 == (if self@.resize_channel {
                resize as int
            } else {
                -1
            }),
    {
        let client_fd: i32 = if self.client.is_some() {
            client
        } else {
            -1
        };
        let resize_fd: i32 = if self.resize_channel {
            resize
        } else {
            -1
        };
        (master, client_fd, listener, resize_fd)
    }

    /// True once for each detach request typed by the client.
    pub fn take_detach_request(&mut self) -> (r: bool)
        requires
            old(self).wf(),
        ensures
            final(self).wf(),
            r == old(self)@.detach.requested,
            final(self)@ == (PtyState {
                detach: DetachState { requested: false, ..old(self)@.detach },
                ..old(self)@
            }),
    {
        let r = self.detach_requested;
        self.detach_requested = false;
        r
    }

    // -----------------------------------------------------------------------
    // Output of the session
    // -----------------------------------------------------------------------

    /// Keeps the last output, up to the limit.
    pub fn keep_output(&mut self, bytes: &[u8])
        requires
            old(self).wf(),
        ensures
            final(self).wf(),
            final(self)@ == (PtyState {
                scrollback: last_bytes(
                    old(self)@.scrollback + bytes@,
                    SCROLLBACK_LIMIT_BYTES as nat,
                ),
                ..old(self)@
            }),
    {
        let ghost before = self.scrollback@;
        if bytes.len() >= SCROLLBACK_LIMIT_BYTES {
            self.scrollback = sub_bytes(bytes, bytes.len() - SCROLLBACK_LIMIT_BYTES, bytes.len());
            assert(self.scrollback@ =~= last_bytes(
                before + bytes@,
                SCROLLBACK_LIMIT_BYTES as nat,
            ));
            return ;
        }
        let total: usize = self.scrollback.len() + bytes.len();
        if total > SCROLLBACK_LIMIT_BYTES {
            let overflow: usize = total - SCROLLBACK_LIMIT_BYTES;
            self.scrollback = sub_bytes(&self.scrollback, overflow, self.scrollback.len());
        }
        push_bytes(&mut self.scrollback, bytes, bytes.len());
        assert(self.scrollback@ =~= last_bytes(before + bytes@, SCROLLBACK_LIMIT_BYTES as nat));
    }

    /// The session wrote `bytes`.
    pub fn record_output(&mut self, bytes: &[u8])
        requires
            old(self).wf(),
        ensures
            final(self).wf(),
            final(self)@ == old(self)@.recorded(bytes@),
    {
        if bytes.len() == 0 {
            return ;
        }
        self.screen.apply_bytes(bytes);
        self.keep_output(bytes);
    }
}

/// What reading from the session's terminal gave.
#[derive(Debug)]
pub enum MasterRead {
    Data(Vec<u8>),
    Eof,
    Retry,
    Failed,
}

/// What reading from the session's terminal asks for.
#[derive(Debug)]
pub enum MasterProxyOutcome {
    /// Recorded; with a client, the bytes go on to it.
    Data { forward: Option<Vec<u8>> },
    /// The session's terminal is gone.
    Closed,
    Retry,
}

/// What waiting for the rest of an ended session's output gave.
#[derive(Clone, Copy, Debug, PartialEq, Eq, Structural)]
pub enum DrainPoll {
    /// Ready: whether the terminal hung up or failed, whether there is anything to act on, whether
    /// the descriptor is invalid.
    Ready { readable: bool, hung_up: bool, invalid: bool },
    TimedOut,
    Interrupted,
    Failed,
}

/// What draining does next.
#[derive(Clone, Copy, Debug, PartialEq, Eq, Structural)]
pub enum DrainStep {
    /// Read once, then decide by [`after_drain_read`].
    Read,
    /// Wait again.
    Wait,
    Stop,
}

pub fn drain_after_poll(p: DrainPoll) -> (r: DrainStep)
    ensures
        r == match p {
            DrainPoll::Ready { readable, hung_up, invalid } => if readable || hung_up {
                DrainStep::Read
            } else if invalid {
                DrainStep::Stop
            } else {
                DrainStep::Wait
            },
            DrainPoll::TimedOut => DrainStep::Stop,
            DrainPoll::Interrupted => DrainStep::Wait,
            DrainPoll::Failed => DrainStep::Stop,
        },
{
    match p {
        DrainPoll::Ready { readable, hung_up, invalid } => if readable || hung_up {
            DrainStep::Read
        } else if invalid {
            DrainStep::Stop
        } else {
            DrainStep::Wait
        },
        DrainPoll::TimedOut => DrainStep::Stop,
        DrainPoll::Interrupted => DrainStep::Wait,
        DrainPoll::Failed => DrainStep::Stop,
    }
}

/// After a read while draining: whether to go on, and whether the quiet period starts anew.
pub fn after_drain_read(outcome: &MasterProxyOutcome, hung_up: bool) -> (r: (DrainStep, bool))
    ensures
        r.0 == match outcome {
            MasterProxyOutcome::Data { .. } => DrainStep::Wait,
            MasterProxyOutcome::Retry => if hung_up {
                DrainStep::Stop
            } else {
                DrainStep::Wait
            },
            MasterProxyOutcome::Closed => DrainStep::Stop,
        },
        r.1 == (outcome is Data),
{
    match outcome {
        MasterProxyOutcome::Data { forward: _ } => (DrainStep::Wait, true),
        MasterProxyOutcome::Retry => if hung_up {
            (DrainStep::Stop, false)
        } else {
            (DrainStep::Wait, false)
        },
        MasterProxyOutcome::Closed => (DrainStep::Stop, false),
    }
}

impl PtyProxy {
    /// What was read from the session's terminal is recorded, and goes on to the client as it is.
    pub fn proxy_master_to_client_once(&mut self, read: MasterRead) -> (r: MasterProxyOutcome)
        requires
            old(self).wf(),
        ensures
            final(self).wf(),
            match read {
                MasterRead::Data(b) => {
                    &&& final(self)@ == old(self)@.recorded(b@)
                    &&& r matches MasterProxyOutcome::Data { forward } && match forward {
                        Some(f) => f@ == b@ && old(self)@.client is Some,
                        None => old(self)@.client is None,
                    }
                },
                MasterRead::Retry => r is Retry && final(self)@ == old(self)@,
                MasterRead::Eof => r is Closed && final(self)@ == old(self)@,
                MasterRead::Failed => r is Closed && final(self)@ == old(self)@,
            },
    {
        match read {
            MasterRead::Data(bytes) => {
                self.record_output(&bytes);
                if self.client.is_some() {
                    MasterProxyOutcome::Data { forward: Some(bytes) }
                } else {
                    MasterProxyOutcome::Data { forward: None }
                }
            },
            MasterRead::Retry => MasterProxyOutcome::Retry,
            MasterRead::Eof => MasterProxyOutcome::Closed,
            MasterRead::Failed => MasterProxyOutcome::Closed,
        }
    }

    /// After the output was written on to the client: a client that could not be written to is
    /// detached, and the session goes on.
    pub fn after_forward(&mut self, written: bool) -> (r: Option<Detached>)
        requires
            old(self).wf(),
        ensures
            final(self).wf(),
            final(self)@ == if written {
                old(self)@
            } else {
                old(self)@.detached()
            },
            r == if written {
                None
            } else {
                Some(
                    Detached {
                        terminal: old(self)@.client == Some(AttachedClient::Terminal),
                        restore: old(self)@.client == Some(AttachedClient::Terminal)
                            && old(self)@.terminal_raw,
                    },
                )
            },
    {
        if written {
            None
        } else {
            Some(self.detach())
        }
    }

    /// Whether the session's terminal is still usable.
    pub fn proxy_master_to_client(outcome: &MasterProxyOutcome) -> (r: bool)
        ensures
            r == !(outcome is Closed),
    {
        !matches!(outcome, MasterProxyOutcome::Closed)
    }

    // -----------------------------------------------------------------------
    // Input of the client
    // -----------------------------------------------------------------------

    fn advance_detach(&mut self)
        requires
            old(self).wf(),
            old(self)@.detach.sequence.len() > 0,
        ensures
            final(self).wf(),
            final(self)@ == (PtyState { detach: old(self)@.detach.advanced(), ..old(self)@ }),
    {
        self.pending_detach_escape = Vec::new();
        if self.detach_sequence.len() - self.pending_detach_match_len == 1 {
            self.pending_detach_match_len = 0;
            self.detach_requested = true;
        } else {
            self.pending_detach_match_len = self.pending_detach_match_len + 1;
        }
    }

    fn give_up_escape(&mut self, escape: Vec<u8>, forwarded: &mut Vec<u8>)
        requires
            old(self).wf(),
        ensures
            final(self).wf(),
            final(self)@ == (PtyState {
                detach: old(self)@.detach.given_up(escape@).0,
                ..old(self)@
            }),
            final(forwarded)@ == old(forwarded)@ + old(self)@.detach.given_up(escape@).1,
    {
        let ghost before = forwarded@;
        let ghost head = self.detach_sequence@.take(self.pending_detach_match_len as int);
        let mut tail = escape;
        push_bytes(forwarded, &self.detach_sequence, self.pending_detach_match_len);
        forwarded.append(&mut tail);
        self.pending_detach_match_len = 0;
        self.pending_detach_escape = Vec::new();
        assert((before + head) + escape@ =~= before + (head + escape@));
    }

    /// One typed byte, with the byte that follows it in the same read.
    fn filter_byte(&mut self, byte: u8, next: Option<u8>, forwarded: &mut Vec<u8>)
        requires
            old(self).wf(),
        ensures
            final(self).wf(),
            final(self)@ == (PtyState {
                detach: detach_step(old(self)@.detach, byte, next).0,
                ..old(self)@
            }),
            final(forwarded)@ == old(forwarded)@ + detach_step(old(self)@.detach, byte, next).1,
    {
        let ghost before = forwarded@;
        let ghost st = self@.detach;
        if self.pending_detach_escape.len() > 0 {
            let mut escape = copy_bytes(&self.pending_detach_escape);
            escape.push(byte);
            let expected = self.detach_sequence[self.pending_detach_match_len];
            match match_enhanced_key_sequence(&escape, expected) {
                EnhancedKeyMatch::Pending => {
                    if escape.len() > MAX_ENHANCED_KEY_SEQUENCE_LEN {
                        self.give_up_escape(escape, forwarded);
                    } else {
                        self.pending_detach_escape = escape;
                        assert(forwarded@ =~= before + Seq::<u8>::empty());
                    }
                },
                EnhancedKeyMatch::Matched => {
                    self.advance_detach();
                    assert(forwarded@ =~= before + Seq::<u8>::empty());
                },
                EnhancedKeyMatch::Invalid => {
                    self.give_up_escape(escape, forwarded);
                },
            }
            return ;
        }
        if self.detach_sequence.len() == 0 {
            forwarded.push(byte);
            assert(forwarded@ =~= before + seq![byte]);
            return ;
        }
        let expected = self.detach_sequence[self.pending_detach_match_len];
        if byte == expected {
            self.advance_detach();
            assert(forwarded@ =~= before + Seq::<u8>::empty());
            return ;
        }
        let bracket_next = match next {
            Some(b) => b == 91,
            None => false,
        };
        if byte == ESC && detach_key_supports_enhanced_match(expected) && bracket_next {
            let mut escape: Vec<u8> = Vec::new();
            escape.push(byte);
            assert(escape@ =~= seq![byte]);
            self.pending_detach_escape = escape;
            assert(forwarded@ =~= before + Seq::<u8>::empty());
            return ;
        }
        let matched: usize = self.pending_detach_match_len;
        let ghost head = self.detach_sequence@.take(matched as int);
        push_bytes(forwarded, &self.detach_sequence, matched);
        if matched > 0 && byte == self.detach_sequence[0] {
            self.pending_detach_match_len = 1;
            return ;
        }
        self.pending_detach_match_len = 0;
        forwarded.push(byte);
        assert(forwarded@ =~= before + head.push(byte));
    }

    /// What of the client's input goes on to the session.
    pub fn filter_client_input(&mut self, bytes: &[u8]) -> (r: Vec<u8>)
        requires
            old(self).wf(),
        ensures
            final(self).wf(),
            final(self)@ == (PtyState {
                detach: detach_run(old(self)@.detach, bytes@).0,
                ..old(self)@
            }),
            r@ == detach_run(old(self)@.detach, bytes@).1,
    {
        let mut forwarded: Vec<u8> = Vec::new();
        let mut i: usize = 0;
        let ghost st0 = self@.detach;
        assert(bytes@.skip(0) =~= bytes@);
        assert(Seq::<u8>::empty() + detach_run(st0, bytes@).1 =~= detach_run(st0, bytes@).1);
        while i < bytes.len()
            invariant
                i <= bytes@.len(),
                self.wf(),
                st0 == old(self)@.detach,
                self@ == (PtyState { detach: self@.detach, ..old(self)@ }),
                detach_run(st0, bytes@).0 == detach_run(self@.detach, bytes@.skip(i as int)).0,
                detach_run(st0, bytes@).1 == forwarded@ + detach_run(
                    self@.detach,
                    bytes@.skip(i as int),
                ).1,
            decreases bytes@.len() - i,
        {
            let next = if bytes.len() - i > 1 {
                Some(bytes[i + 1])
            } else {
                None
            };
            let ghost rest = bytes@.skip(i as int);
            let ghost st = self@.detach;
            let ghost before = forwarded@;
            proof {
                assert(rest[0] == bytes@[i as int]);
                assert(second(rest) == next);
                assert(rest.skip(1) =~= bytes@.skip(i + 1));
            }
            self.filter_byte(bytes[i], next, &mut forwarded);
            proof {
                let (st1, out1) = detach_step(st, rest[0], second(rest));
                let (st2, out2) = detach_run(st1, rest.skip(1));
                assert(before + (out1 + out2) =~= (before + out1) + out2);
            }
            i += 1;
        }
        proof {
            assert(bytes@.skip(i as int).len() == 0);
            assert(forwarded@ + Seq::<u8>::empty() =~= forwarded@);
        }
        forwarded
    }

    /// What was read from the client: input goes to the session as far as the detach sequence lets
    /// it; the end of input, or a failure, detaches. Without a client nothing happens.
    pub fn proxy_client_to_master(&mut self, read: MasterRead) -> (r: ClientInput)
        requires
            old(self).wf(),
        ensures
            final(self).wf(),
            if old(self)@.client is None {
                r is Nothing && final(self)@ == old(self)@
            } else {
                match read {
                    MasterRead::Data(b) => {
                        let (st, out) = detach_run(old(self)@.detach, b@);
                        &&& final(self)@ == (PtyState { detach: st, ..old(self)@ })
                        &&& match r {
                            ClientInput::Forward(f) => f@ == out && out.len() > 0,
                            ClientInput::Nothing => out.len() == 0,
                            ClientInput::Detached(_) => false,
                        }
                    },
                    MasterRead::Retry => r is Nothing && final(self)@ == old(self)@,
                    _ => {
                        &&& final(self)@ == old(self)@.detached()
                        &&& r matches ClientInput::Detached(d) && d.terminal == (
                        old(self)@.client == Some(AttachedClient::Terminal)) && d.restore == (
                        d.terminal && old(self)@.terminal_raw)
                    },
                }
            },
    {
        if self.client.is_none() {
            return ClientInput::Nothing;
        }
        match read {
            MasterRead::Data(bytes) => {
                let forwarded = self.filter_client_input(&bytes);
                if forwarded.len() > 0 {
                    ClientInput::Forward(forwarded)
                } else {
                    ClientInput::Nothing
                }
            },
            MasterRead::Retry => ClientInput::Nothing,
            MasterRead::Eof => ClientInput::Detached(self.detach()),
            MasterRead::Failed => ClientInput::Detached(self.detach()),
        }
    }

    // -----------------------------------------------------------------------
    // Window sizes
    // -----------------------------------------------------------------------

    /// Brings the screen to the size of a window; true where it changed, and the session's
    /// terminal is to be told.
    pub fn apply_winsize(&mut self, winsize: &Winsize) -> (r: bool)
        requires
            old(self).wf(),
        ensures
            final(self).wf(),
            final(self)@ == old(self)@.sized(*winsize),
            r == !(winsize.ws_row == 0 || winsize.ws_col == 0 || last_size(old(self)@.history) == (
                winsize.ws_row,
                winsize.ws_col,
            )),
    {
        if winsize.ws_row == 0 || winsize.ws_col == 0 {
            return false;
        }
        let (rows, cols) = self.screen.size();
        if rows == winsize.ws_row && cols == winsize.ws_col {
            return false;
        }
        self.screen.resize(winsize.ws_row as usize, winsize.ws_col as usize);
        true
    }

    /// Brings the screen to the size of the supervisor's own terminal, where that is attached and
    /// its size known.
    pub fn sync_current_terminal_winsize(&mut self, winsize: Option<Winsize>) -> (r: bool)
        requires
            old(self).wf(),
        ensures
            final(self).wf(),
            match winsize {
                Some(ws) => if old(self)@.client == Some(AttachedClient::Terminal) {
                    final(self)@ == old(self)@.sized(ws) && r == !(ws.ws_row == 0 || ws.ws_col == 0
                        || last_size(old(self)@.history) == (ws.ws_row, ws.ws_col))
                } else {
                    final(self)@ == old(self)@ && !r
                },
                None => final(self)@ == old(self)@ && !r,
            },
    {
        match winsize {
            Some(ws) => if matches!(self.client, Some(AttachedClient::Terminal)) {
                self.apply_winsize(&ws)
            } else {
                false
            },
            None => false,
        }
    }

    /// One attempt to receive a window size. The result says whether to try again; a failure other
    /// than an empty channel closes the channel.
    pub fn apply_resize_update(&mut self, received: ResizeReceived) -> (r: bool)
        requires
            old(self).wf(),
        ensures
            final(self).wf(),
            if !old(self)@.resize_channel {
                !r && final(self)@ == old(self)@
            } else {
                match received {
                    ResizeReceived::Message(m) => r && final(self)@ == match resize_size(m@) {
                        Some(ws) => old(self)@.sized(ws),
                        None => old(self)@,
                    },
                    ResizeReceived::OtherLength => r && final(self)@ == old(self)@,
                    ResizeReceived::Failed(e) => if e == IoFailure::Interrupted {
                        r && final(self)@ == old(self)@
                    } else if e == IoFailure::WouldBlock {
                        !r && final(self)@ == old(self)@
                    } else {
                        !r && final(self)@ == (PtyState { resize_channel: false, ..old(self)@ })
                    },
                }
            },
    {
        if !self.resize_channel {
            return false;
        }
        match received {
            ResizeReceived::Message(m) => {
                if let Some(ws) = decode_resize_message(&m) {
                    let _changed = self.apply_winsize(&ws);
                }
                true
            },
            ResizeReceived::OtherLength => true,
            ResizeReceived::Failed(e) => if matches!(e, IoFailure::Interrupted) {
                true
            } else if matches!(e, IoFailure::WouldBlock) {
                false
            } else {
                self.resize_channel = false;
                false
            },
        }
    }
}

/// What receiving from the resize channel gave.
#[derive(Clone, Copy, Debug)]
pub enum ResizeReceived {
    Message([u8; 4]),
    OtherLength,
    Failed(IoFailure),
}

/// What the client's input asks for.
#[derive(Debug)]
pub enum ClientInput {
    /// Write this to the session's terminal; if that fails, it is no longer usable.
    Forward(Vec<u8>),
    Nothing,
    Detached(Detached),
}

// ---------------------------------------------------------------------------
// Accepting clients
// ---------------------------------------------------------------------------

/// What happened while a client was being accepted.
#[derive(Clone, Copy, Debug)]
pub enum AcceptEvent {
    /// Nobody is waiting, or accepting failed.
    NoConnection,
    /// A connection was accepted and made blocking, or could not be made so.
    Connected { made_blocking: bool },
    /// Whether the peer may attach.
    Authenticated(bool),
    /// The request byte, if one came.
    Request(Option<u8>),
    /// The handshake, if one came.
    Handshake(Option<[u8; 8]>),
    /// Whether a channel for window sizes was made.
    ChannelMade(bool),
    /// Whether the client's end of the channel was sent.
    ChannelSent(bool),
    /// Whether the connection was made nonblocking again.
    Settled(bool),
}

/// What to do next.
#[derive(Debug)]
pub enum AcceptStep {
    /// Answer with this byte, if any, and drop the connection.
    Refuse(Option<u8>),
    /// The client asked for a detach, which took place; reset the terminal and tell its user where
    /// it was the supervisor's own (on the alternate screen or not). Answer `ATTACH_ACK_OK`.
    DetachDone { done: Detached, in_alt_screen: bool },
    Authenticate,
    ReadRequest,
    ReadHandshake,
    /// Tell the session's terminal its new size, if it changed, and make the channel.
    MakeChannel { resized: Option<Winsize> },
    /// Answer `ATTACH_ACK_OK`, then send the client's end of the channel.
    SendChannel,
    /// Write the replay, if there is any, then make the connection nonblocking.
    Replay(Vec<u8>),
    /// The client is attached; record the session so.
    Attached,
}

/// What a connection is waited for next.
#[derive(Clone, Copy, Debug, PartialEq, Eq, Structural)]
pub enum AcceptStage {
    Listening,
    Authenticating,
    Requesting,
    ShakingHands,
    MakingChannel,
    SendingChannel,
    Settling,
}

/// What to do next, with bytes as sequences.
pub enum AcceptView {
    Refuse(Option<u8>),
    DetachDone { done: Detached, in_alt_screen: bool },
    Authenticate,
    ReadRequest,
    ReadHandshake,
    MakeChannel { resized: Option<Winsize> },
    SendChannel,
    Replay(Seq<u8>),
    Attached,
}

impl View for AcceptStep {
    type V = AcceptView;

    open spec fn view(&self) -> AcceptView {
        match self {
            AcceptStep::Refuse(b) => AcceptView::Refuse(*b),
            AcceptStep::DetachDone { done, in_alt_screen } => AcceptView::DetachDone {
                done: *done,
                in_alt_screen: *in_alt_screen,
            },
            AcceptStep::Authenticate => AcceptView::Authenticate,
            AcceptStep::ReadRequest => AcceptView::ReadRequest,
            AcceptStep::ReadHandshake => AcceptView::ReadHandshake,
            AcceptStep::MakeChannel { resized } => AcceptView::MakeChannel { resized: *resized },
            AcceptStep::SendChannel => AcceptView::SendChannel,
            AcceptStep::Replay(bytes) => AcceptView::Replay(bytes@),
            AcceptStep::Attached => AcceptView::Attached,
        }
    }
}

impl PtyState {
    pub open spec fn at(self, stage: AcceptStage) -> PtyState {
        PtyState { accepting: stage, ..self }
    }

    /// The connection is dropped with this answer.
    pub open spec fn refusing(self, answer: Option<u8>) -> (PtyState, AcceptView) {
        (self.at(AcceptStage::Listening), AcceptView::Refuse(answer))
    }

    /// The connection goes on where its last step succeeded, and is refused where it did not.
    pub open spec fn going_on(self, ok: bool, stage: AcceptStage, step: AcceptView) -> (
        PtyState,
        AcceptView,
    ) {
        if ok {
            (self.at(stage), step)
        } else {
            self.refusing(Some(ATTACH_ACK_DENIED))
        }
    }

    /// What the request byte asks for.
    pub open spec fn requested(self, kind: Option<u8>) -> (PtyState, AcceptView) {
        if kind == Some(ATTACH_REQUEST_ATTACH) {
            if self.client is Some {
                self.refusing(Some(ATTACH_ACK_BUSY))
            } else {
                (self.at(AcceptStage::ShakingHands), AcceptView::ReadHandshake)
            }
        } else if kind == Some(ATTACH_REQUEST_DETACH) {
            let terminal = self.client == Some(AttachedClient::Terminal);
            (
                self.detached().at(AcceptStage::Listening),
                AcceptView::DetachDone {
                    done: Detached { terminal, restore: terminal && self.terminal_raw },
                    in_alt_screen: screen_alternate(self.history),
                },
            )
        } else {
            self.refusing(Some(ATTACH_ACK_DENIED))
        }
    }

    /// The window of the client, from its handshake.
    pub open spec fn shaken(self, handshake: Option<[u8; 8]>) -> (PtyState, AcceptView) {
        match handshake {
            Some(bytes) => match handshake_size(bytes@) {
                Some(ws) => (
                    self.sized(ws).at(AcceptStage::MakingChannel),
                    AcceptView::MakeChannel {
                        resized: if self.sized(ws) == self {
                            None
                        } else {
                            Some(ws)
                        },
                    },
                ),
                None => self.refusing(Some(ATTACH_ACK_DENIED)),
            },
            None => self.refusing(Some(ATTACH_ACK_DENIED)),
        }
    }
}

/// One step of accepting a client: the next state, and what to do. An event that is not waited for
/// drops the connection.
pub open spec fn accept_step(st: PtyState, event: AcceptEvent) -> (PtyState, AcceptView) {
    match (st.accepting, event) {
        (AcceptStage::Listening, AcceptEvent::Connected { made_blocking }) => st.going_on(
            made_blocking,
            AcceptStage::Authenticating,
            AcceptView::Authenticate,
        ),
        (AcceptStage::Authenticating, AcceptEvent::Authenticated(ok)) => st.going_on(
            ok,
            AcceptStage::Requesting,
            AcceptView::ReadRequest,
        ),
        (AcceptStage::Requesting, AcceptEvent::Request(kind)) => st.requested(kind),
        (AcceptStage::ShakingHands, AcceptEvent::Handshake(h)) => st.shaken(h),
        (AcceptStage::MakingChannel, AcceptEvent::ChannelMade(ok)) => st.going_on(
            ok,
            AcceptStage::SendingChannel,
            AcceptView::SendChannel,
        ),
        (AcceptStage::SendingChannel, AcceptEvent::ChannelSent(ok)) => st.going_on(
            ok,
            AcceptStage::Settling,
            AcceptView::Replay(st.replay()),
        ),
        (AcceptStage::Settling, AcceptEvent::Settled(ok)) => if ok && st.client is None {
            (
                PtyState {
                    client: Some(AttachedClient::Socket),
                    resize_channel: true,
                    ..st.at(AcceptStage::Listening)
                },
                AcceptView::Attached,
            )
        } else {
            st.refusing(None)
        },
        _ => st.refusing(None),
    }
}

impl PtyProxy {
    fn refuse(&mut self, answer: Option<u8>) -> (r: AcceptStep)
        requires
            old(self).wf(),
        ensures
            final(self).wf(),
            (final(self)@, r@) == old(self)@.refusing(answer),
    {
        self.accepting = AcceptStage::Listening;
        AcceptStep::Refuse(answer)
    }

    fn on_request(&mut self, kind: Option<u8>) -> (r: AcceptStep)
        requires
            old(self).wf(),
        ensures
            final(self).wf(),
            (final(self)@, r@) == old(self)@.requested(kind),
    {
        match kind {
            Some(k) => if k == ATTACH_REQUEST_ATTACH {
                if self.client.is_some() {
                    self.refuse(Some(ATTACH_ACK_BUSY))
                } else {
                    self.accepting = AcceptStage::ShakingHands;
                    AcceptStep::ReadHandshake
                }
            } else if k == ATTACH_REQUEST_DETACH {
                let in_alt_screen = self.screen.alternate_screen_active();
                let done = self.detach();
                self.accepting = AcceptStage::Listening;
                AcceptStep::DetachDone { done, in_alt_screen }
            } else {
                self.refuse(Some(ATTACH_ACK_DENIED))
            },
            None => self.refuse(Some(ATTACH_ACK_DENIED)),
        }
    }

    fn on_handshake(&mut self, handshake: Option<[u8; 8]>) -> (r: AcceptStep)
        requires
            old(self).wf(),
        ensures
            final(self).wf(),
            (final(self)@, r@) == old(self)@.shaken(handshake),
    {
        let size = match handshake {
            Some(bytes) => decode_attach_handshake(&bytes),
            None => None,
        };
        match size {
            Some(ws) => {
                let ghost before = self@;
                let changed = self.apply_winsize(&ws);
                proof {
                    if changed {
                        assert(self@.history.len() == before.history.len() + 1);
                    }
                }
                self.accepting = AcceptStage::MakingChannel;
                if changed {
                    AcceptStep::MakeChannel { resized: Some(ws) }
                } else {
                    AcceptStep::MakeChannel { resized: None }
                }
            },
            None => self.refuse(Some(ATTACH_ACK_DENIED)),
        }
    }

    /// One step of accepting a client. A client is refused while another is attached; the size of
    /// its window is applied before the replay is made; it is attached only at the end.
    pub fn try_accept(&mut self, event: AcceptEvent) -> (r: AcceptStep)
        requires
            old(self).wf(),
        ensures
            final(self).wf(),
            (final(self)@, r@) == accept_step(old(self)@, event),
    {
        match (self.accepting, event) {
            (AcceptStage::Listening, AcceptEvent::Connected { made_blocking }) => {
                if !made_blocking {
                    return self.refuse(Some(ATTACH_ACK_DENIED));
                }
                self.accepting = AcceptStage::Authenticating;
                AcceptStep::Authenticate
            },
            (AcceptStage::Authenticating, AcceptEvent::Authenticated(ok)) => {
                if !ok {
                    return self.refuse(Some(ATTACH_ACK_DENIED));
                }
                self.accepting = AcceptStage::Requesting;
                AcceptStep::ReadRequest
            },
            (AcceptStage::Requesting, AcceptEvent::Request(kind)) => self.on_request(kind),
            (AcceptStage::ShakingHands, AcceptEvent::Handshake(h)) => self.on_handshake(h),
            (AcceptStage::MakingChannel, AcceptEvent::ChannelMade(ok)) => {
                if !ok {
                    return self.refuse(Some(ATTACH_ACK_DENIED));
                }
                self.accepting = AcceptStage::SendingChannel;
                AcceptStep::SendChannel
            },
            (AcceptStage::SendingChannel, AcceptEvent::ChannelSent(ok)) => {
                if !ok {
                    return self.refuse(Some(ATTACH_ACK_DENIED));
                }
                let replay = self.attach_replay_bytes();
                self.accepting = AcceptStage::Settling;
                AcceptStep::Replay(replay)
            },
            (AcceptStage::Settling, AcceptEvent::Settled(ok)) => {
                if !ok || self.client.is_some() {
                    return self.refuse(None);
                }
                self.client = Some(AttachedClient::Socket);
                self.resize_channel = true;
                self.accepting = AcceptStage::Listening;
                AcceptStep::Attached
            },
            _ => self.refuse(None),
        }
    }

    /// What is written about the screen beside a debug capture.
    pub fn debug_metadata(&self) -> (r: String)
        ensures
            r@ == "session_id="@ + self@.session_id + "\nrows="@ + decimal(
                last_size(self@.history).0 as nat,
            ) + "\ncols="@ + decimal(last_size(self@.history).1 as nat) + "\ncursor_row="@
                + decimal(screen_cursor(self@.history).0 as nat) + "\ncursor_col="@ + decimal(
                screen_cursor(self@.history).1 as nat,
            ) + "\nalternate_screen_active="@ + (if screen_alternate(self@.history) {
                "true"@
            } else {
                "false"@
            }) + "\nscrollback_len="@ + decimal(self@.scrollback.len()) + "\n"@,
    {
        let (rows, cols) = self.screen.size();
        let (cursor_row, cursor_col) = self.screen.cursor_position();
        let mut s = concat2("session_id=", self.session_id.as_str());
        s.append("\nrows=");
        s.append(usize_to_string(rows as usize).as_str());
        s.append("\ncols=");
        s.append(usize_to_string(cols as usize).as_str());
        s.append("\ncursor_row=");
        s.append(usize_to_string(cursor_row as usize).as_str());
        s.append("\ncursor_col=");
        s.append(usize_to_string(cursor_col as usize).as_str());
        s.append("\nalternate_screen_active=");
        s.append(
            if self.screen.alternate_screen_active() {
                "true"
            } else {
                "false"
            },
        );
        s.append("\nscrollback_len=");
        s.append(usize_to_string(self.scrollback.len()).as_str());
        s.append("\n");
        s
    }
}

// ---------------------------------------------------------------------------
// Laws
// ---------------------------------------------------------------------------

/// Cutting output into reads does not change what is kept of it.
pub proof fn law_output_may_be_cut(st: PtyState, a: Seq<u8>, b: Seq<u8>)
    requires
        st.scrollback.len() <= SCROLLBACK_LIMIT_BYTES,
    ensures
        st.recorded(a).recorded(b).scrollback == st.recorded(a + b).scrollback,
{
    let n = SCROLLBACK_LIMIT_BYTES as nat;
    let s = st.scrollback;
    assert(s + (a + b) =~= (s + a) + b);
    if a.len() == 0 {
        assert(a + b =~= b);
    } else if b.len() == 0 {
        assert(a + b =~= a);
    } else {
        let kept = last_bytes(s + a, n);
        assert(last_bytes(kept + b, n) =~= last_bytes((s + a) + b, n));
    }
}

/// Detaching twice is detaching once, and a detached session has nobody attached and holds no
/// input back.
pub proof fn law_detach_is_idempotent(st: PtyState)
    requires
        st.detach.wf(),
    ensures
        st.detached().detached() == st.detached(),
        st.detached().client is None,
        st.detached().detach.idle(),
        st.detached().detach.wf(),
        st.detached().scrollback == st.scrollback,
        st.detached().history == st.history,
{
    assert(st.detached().detached() =~= st.detached());
}

/// A window size that was just applied changes nothing.
pub proof fn law_same_size_changes_nothing(st: PtyState, ws: Winsize)
    ensures
        st.sized(ws).sized(ws) == st.sized(ws),
{
}

/// The state after the first `n` of some events.
pub open spec fn accept_run(st: PtyState, events: Seq<AcceptEvent>, n: nat) -> PtyState
    decreases n,
{
    if n == 0 {
        st
    } else {
        accept_step(accept_run(st, events, (n - 1) as nat), events[n - 1]).0
    }
}

/// Among the first `n` events the peer was found to be one that may attach, and no other
/// connection came since.
pub open spec fn admitted(events: Seq<AcceptEvent>, n: nat) -> bool {
    exists|j: int|
        0 <= j < n && (#[trigger] events[j]) == AcceptEvent::Authenticated(true) && forall|k: int|
            j < k < n ==> !((#[trigger] events[k]) is Connected)
}

/// In whatever order events come, a client is attached only on a connection whose peer was found
/// to be one that may attach, and only where nobody was attached.
pub proof fn law_only_admitted_clients_attach(st: PtyState, events: Seq<AcceptEvent>, i: int)
    requires
        st.accepting == AcceptStage::Listening,
        0 <= i < events.len(),
        accept_step(accept_run(st, events, i as nat), events[i]).1 is Attached,
    ensures
        admitted(events, i as nat),
        accept_run(st, events, i as nat).client is None,
{
    lemma_admitted(st, events, i as nat);
}

proof fn lemma_admitted(st: PtyState, events: Seq<AcceptEvent>, n: nat)
    requires
        st.accepting == AcceptStage::Listening,
        n <= events.len(),
    ensures
        ({
            let stage = accept_run(st, events, n).accepting;
            stage == AcceptStage::Listening || stage == AcceptStage::Authenticating || admitted(
                events,
                n,
            )
        }),
    decreases n,
{
    if n > 0 {
        let m = (n - 1) as nat;
        lemma_admitted(st, events, m);
        let before = accept_run(st, events, m);
        let event = events[n - 1];
        let stage = accept_run(st, events, n).accepting;
        if stage != AcceptStage::Listening && stage != AcceptStage::Authenticating {
            if before.accepting == AcceptStage::Authenticating {
                assert(events[n - 1] == AcceptEvent::Authenticated(true));
            } else {
                let j = choose|j: int|
                    0 <= j < m && (#[trigger] events[j]) == AcceptEvent::Authenticated(true)
                        && forall|k: int| j < k < m ==> !((#[trigger] events[k]) is Connected);
                assert(!(event is Connected));
                assert(events[j] == AcceptEvent::Authenticated(true));
            }
        }
    }
}

/// While a client is attached, no connection takes its place.
pub proof fn law_nobody_is_pushed_out(st: PtyState, event: AcceptEvent)
    requires
        st.client is Some,
    ensures
        accept_step(st, event).0.client == st.client || accept_step(st, event).0.client is None,
        !(accept_step(st, event).1 is Attached),
{
}

} // verus!
