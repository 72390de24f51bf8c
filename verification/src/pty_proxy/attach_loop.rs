//! The loop of an attach client, between a user's terminal and the socket of a session.
//!
//! [`AttachLoop::step`] takes what happened last and says what to do next.

use crate::error::{ErrorView, NonoError};
use crate::pty_proxy::alt_screen::{scan, AltScreenTracker};
use crate::pty_proxy::attach::{
    is_disconnect, is_socket_disconnect, resize_needed, IoFailure, Winsize,
};
use crate::text::concat2;
use vstd::prelude::*;

verus! {

/// What a read gave.
#[derive(Debug)]
pub enum ReadOutcome {
    Data(Vec<u8>),
    Eof,
    Retry,
    Failed(IoFailure, String),
}

/// What a write gave.
#[derive(Debug)]
pub enum WriteOutcome {
    Done,
    Failed(IoFailure, String),
}

/// What happened last.
#[derive(Debug)]
pub enum LoopEvent {
    /// The clock was read: whether input is still held back after attaching.
    Clock { warming_up: bool },
    PollInterrupted,
    PollFailed(String),
    /// Waiting ended with these descriptors ready.
    Ready { stdin: bool, socket: bool, hung_up: bool, resize: bool },
    Read(ReadOutcome),
    Written(WriteOutcome),
    /// The window's size after a resize signal, if known.
    Window(Option<Winsize>),
    /// A window size was sent, or could not be; it makes no difference.
    ResizeSent,
}

/// What to do next.
#[derive(Debug)]
pub enum LoopAction {
    ReadClock,
    /// Wait for the socket alone, until the end of the warm-up.
    PollSocket,
    /// Wait for the terminal, the socket and resize signals.
    PollAll,
    ReadStdin,
    ReadSocket,
    WriteSocket(Vec<u8>),
    WriteStdout(Vec<u8>),
    /// Empty the signal pipe and ask for the window's size.
    QueryWindow,
    SendResize(Winsize),
    /// The loop has ended, well or with a failure.
    Finish,
    Fail(NonoError),
}

/// What the loop waits for.
#[derive(Clone, Copy, Debug, PartialEq, Eq, Structural)]
pub enum Stage {
    Clock,
    WarmPoll,
    WarmRead,
    WarmWrite,
    Poll,
    StdinRead,
    StdinWrite,
    SocketRead,
    SocketWrite,
    Window,
    Resize,
    Done,
}

/// What is left to do of the descriptors that were ready.
#[derive(Clone, Copy, Debug, PartialEq, Eq, Structural)]
pub struct Pending {
    pub socket: bool,
    pub hung_up: bool,
    pub resize: bool,
}

pub struct AttachLoop {
    pub stage: Stage,
    pub pending: Pending,
    pub last_winsize: Option<Winsize>,
    /// A resize channel to the session is open.
    pub has_channel: bool,
    pub tracker: AltScreenTracker,
    /// What was handed out to be written to the terminal.
    pub outgoing: Vec<u8>,
}

/// The state as a mathematical value.
#[verifier::ext_equal]
pub struct LoopState {
    pub stage: Stage,
    pub pending: Pending,
    pub last_winsize: Option<Winsize>,
    pub has_channel: bool,
    pub alt: bool,
    pub tail: Seq<u8>,
    pub outgoing: Seq<u8>,
}

impl View for AttachLoop {
    type V = LoopState;

    open spec fn view(&self) -> LoopState {
        LoopState {
            stage: self.stage,
            pending: self.pending,
            last_winsize: self.last_winsize,
            has_channel: self.has_channel,
            alt: self.tracker.in_alt_screen,
            tail: self.tracker.tail@,
            outgoing: self.outgoing@,
        }
    }
}

/// An action with its data as sequences.
pub enum ActionView {
    ReadClock,
    PollSocket,
    PollAll,
    ReadStdin,
    ReadSocket,
    WriteSocket(Seq<u8>),
    WriteStdout(Seq<u8>),
    QueryWindow,
    SendResize(Winsize),
    Finish,
    Fail(ErrorView),
}

impl View for LoopAction {
    type V = ActionView;

    open spec fn view(&self) -> ActionView {
        match self {
            LoopAction::ReadClock => ActionView::ReadClock,
            LoopAction::PollSocket => ActionView::PollSocket,
            LoopAction::PollAll => ActionView::PollAll,
            LoopAction::ReadStdin => ActionView::ReadStdin,
            LoopAction::ReadSocket => ActionView::ReadSocket,
            LoopAction::WriteSocket(b) => ActionView::WriteSocket(b@),
            LoopAction::WriteStdout(b) => ActionView::WriteStdout(b@),
            LoopAction::QueryWindow => ActionView::QueryWindow,
            LoopAction::SendResize(ws) => ActionView::SendResize(*ws),
            LoopAction::Finish => ActionView::Finish,
            LoopAction::Fail(e) => ActionView::Fail(e@),
        }
    }
}

impl LoopState {
    pub open spec fn at(self, stage: Stage) -> LoopState {
        LoopState { stage, ..self }
    }

    /// Round again.
    pub open spec fn again(self) -> (LoopState, ActionView) {
        (self.at(Stage::Clock), ActionView::ReadClock)
    }

    pub open spec fn finish(self) -> (LoopState, ActionView) {
        (self.at(Stage::Done), ActionView::Finish)
    }

    pub open spec fn fail(self, what: Seq<char>, detail: Seq<char>) -> (LoopState, ActionView) {
        (self.at(Stage::Done), ActionView::Fail(ErrorView::SandboxInit(what + detail)))
    }

    /// The terminal's input has been dealt with: the socket comes next.
    pub open spec fn after_stdin(self) -> (LoopState, ActionView) {
        if self.pending.socket {
            (self.at(Stage::SocketRead), ActionView::ReadSocket)
        } else {
            self.after_socket()
        }
    }

    /// The session's output has been dealt with: a closed connection ends the loop, then comes a
    /// changed window.
    pub open spec fn after_socket(self) -> (LoopState, ActionView) {
        if self.pending.hung_up {
            self.finish()
        } else if self.pending.resize {
            (self.at(Stage::Window), ActionView::QueryWindow)
        } else {
            self.again()
        }
    }

    /// The output handed out last has been written.
    pub open spec fn shown(self) -> LoopState {
        LoopState {
            alt: scan(self.alt, self.tail + self.outgoing).0,
            tail: scan(self.alt, self.tail + self.outgoing).1,
            ..self
        }
    }
}

pub open spec fn window_changed(last: Option<Winsize>, now: Winsize) -> bool {
    match last {
        Some(l) => l.ws_row != now.ws_row || l.ws_col != now.ws_col,
        None => true,
    }
}

/// What a read from the socket leads to: its data goes to the terminal, at `write`.
pub open spec fn socket_read(st: LoopState, read: ReadOutcome, write: Stage) -> (
    LoopState,
    ActionView,
) {
    match read {
        ReadOutcome::Data(b) => (
            LoopState { stage: write, outgoing: b@, ..st },
            ActionView::WriteStdout(b@),
        ),
        ReadOutcome::Eof => st.finish(),
        ReadOutcome::Retry => st.again(),
        ReadOutcome::Failed(e, detail) => if is_disconnect(e) {
            st.finish()
        } else {
            st.fail("attach socket read failed: "@, detail@)
        },
    }
}

/// One step of the loop.
pub open spec fn loop_step(st: LoopState, event: LoopEvent) -> (LoopState, ActionView) {
    match (st.stage, event) {
        (Stage::Clock, LoopEvent::Clock { warming_up }) => if warming_up {
            (st.at(Stage::WarmPoll), ActionView::PollSocket)
        } else {
            (st.at(Stage::Poll), ActionView::PollAll)
        },
        (Stage::WarmPoll, LoopEvent::PollInterrupted) => st.again(),
        (Stage::WarmPoll, LoopEvent::PollFailed(detail)) => st.fail(
            "poll() error in attach warm-up: "@,
            detail@,
        ),
        (Stage::WarmPoll, LoopEvent::Ready { stdin: _, socket, hung_up, resize: _ }) => {
            let st1 = LoopState {
                pending: Pending { socket: false, hung_up, resize: false },
                ..st
            };
            if socket {
                (st1.at(Stage::WarmRead), ActionView::ReadSocket)
            } else {
                st1.after_socket()
            }
        },
        (Stage::WarmRead, LoopEvent::Read(read)) => socket_read(st, read, Stage::WarmWrite),
        (Stage::Poll, LoopEvent::PollInterrupted) => st.again(),
        (Stage::Poll, LoopEvent::PollFailed(detail)) => st.fail(
            "poll() error in attach loop: "@,
            detail@,
        ),
        (Stage::Poll, LoopEvent::Ready { stdin, socket, hung_up, resize }) => {
            let st1 = LoopState { pending: Pending { socket, hung_up, resize }, ..st };
            if stdin {
                (st1.at(Stage::StdinRead), ActionView::ReadStdin)
            } else {
                st1.after_stdin()
            }
        },
        (Stage::StdinRead, LoopEvent::Read(read)) => match read {
            ReadOutcome::Data(b) => (st.at(Stage::StdinWrite), ActionView::WriteSocket(b@)),
            ReadOutcome::Eof => st.finish(),
            ReadOutcome::Retry => st.again(),
            ReadOutcome::Failed(_, detail) => st.fail("attach stdin read failed: "@, detail@),
        },
        (Stage::StdinWrite, LoopEvent::Written(w)) => match w {
            WriteOutcome::Done => st.after_stdin(),
            WriteOutcome::Failed(e, detail) => if is_disconnect(e) {
                st.finish()
            } else {
                st.fail("attach socket write failed: "@, detail@)
            },
        },
        (Stage::SocketRead, LoopEvent::Read(read)) => socket_read(st, read, Stage::SocketWrite),
        (Stage::WarmWrite, LoopEvent::Written(w)) => match w {
            WriteOutcome::Done => st.shown().after_socket(),
            WriteOutcome::Failed(_, detail) => st.fail("attach stdout write failed: "@, detail@),
        },
        (Stage::SocketWrite, LoopEvent::Written(w)) => match w {
            WriteOutcome::Done => st.shown().after_socket(),
            WriteOutcome::Failed(_, detail) => st.fail("attach stdout write failed: "@, detail@),
        },
        (Stage::Window, LoopEvent::Window(window)) => match window {
            Some(ws) => if st.has_channel && window_changed(st.last_winsize, ws) {
                (
                    LoopState { stage: Stage::Resize, last_winsize: Some(ws), ..st },
                    ActionView::SendResize(ws),
                )
            } else {
                st.again()
            },
            None => st.again(),
        },
        (Stage::Resize, LoopEvent::ResizeSent) => st.again(),
        _ => st.finish(),
    }
}

impl AttachLoop {
    pub open spec fn wf(self) -> bool {
        self.tracker.wf()
    }

    /// A loop that has the clock read first. The tracker has seen the replay.
    pub fn new(
        tracker: AltScreenTracker,
        window: Option<Winsize>,
        has_channel: bool,
    ) -> (r: Self)
        requires
            tracker.wf(),
        ensures
            r.wf(),
            r@ == (LoopState {
                stage: Stage::Clock,
                pending: Pending { socket: false, hung_up: false, resize: false },
                last_winsize: window,
                has_channel,
                alt: tracker.in_alt_screen,
                tail: tracker.tail@,
                outgoing: Seq::empty(),
            }),
    {
        AttachLoop {
            stage: Stage::Clock,
            pending: Pending { socket: false, hung_up: false, resize: false },
            last_winsize: window,
            has_channel,
            tracker,
            outgoing: Vec::new(),
        }
    }

    fn again(&mut self) -> (r: LoopAction)
        requires
            old(self).wf(),
        ensures
            final(self).wf(),
            (final(self)@, r@) == old(self)@.again(),
    {
        self.stage = Stage::Clock;
        LoopAction::ReadClock
    }

    fn finish(&mut self) -> (r: LoopAction)
        requires
            old(self).wf(),
        ensures
            final(self).wf(),
            (final(self)@, r@) == old(self)@.finish(),
    {
        self.stage = Stage::Done;
        LoopAction::Finish
    }

    fn fail(&mut self, what: &str, detail: &str) -> (r: LoopAction)
        requires
            old(self).wf(),
        ensures
            final(self).wf(),
            (final(self)@, r@) == old(self)@.fail(what@, detail@),
    {
        self.stage = Stage::Done;
        LoopAction::Fail(NonoError::SandboxInit(concat2(what, detail)))
    }

    fn after_socket(&mut self) -> (r: LoopAction)
        requires
            old(self).wf(),
        ensures
            final(self).wf(),
            (final(self)@, r@) == old(self)@.after_socket(),
    {
        if self.pending.hung_up {
            self.finish()
        } else if self.pending.resize {
            self.stage = Stage::Window;
            LoopAction::QueryWindow
        } else {
            self.again()
        }
    }

    fn after_stdin(&mut self) -> (r: LoopAction)
        requires
            old(self).wf(),
        ensures
            final(self).wf(),
            (final(self)@, r@) == old(self)@.after_stdin(),
    {
        if self.pending.socket {
            self.stage = Stage::SocketRead;
            LoopAction::ReadSocket
        } else {
            self.after_socket()
        }
    }

    fn on_socket_read(&mut self, read: ReadOutcome, write: Stage) -> (r: LoopAction)
        requires
            old(self).wf(),
        ensures
            final(self).wf(),
            (final(self)@, r@) == socket_read(old(self)@, read, write),
    {
        match read {
            ReadOutcome::Data(b) => {
                let copy = crate::pty_proxy::detach::sub_bytes(&b, 0, b.len());
                assert(copy@ =~= b@);
                self.outgoing = copy;
                self.stage = write;
                LoopAction::WriteStdout(b)
            },
            ReadOutcome::Eof => self.finish(),
            ReadOutcome::Retry => self.again(),
            ReadOutcome::Failed(e, detail) => if is_socket_disconnect(e) {
                self.finish()
            } else {
                self.fail("attach socket read failed: ", detail.as_str())
            },
        }
    }

    fn on_stdout_written(&mut self, w: WriteOutcome) -> (r: LoopAction)
        requires
            old(self).wf(),
        ensures
            final(self).wf(),
            (final(self)@, r@) == (match w {
                WriteOutcome::Done => old(self)@.shown().after_socket(),
                WriteOutcome::Failed(_, detail) => old(self)@.fail(
                    "attach stdout write failed: "@,
                    detail@,
                ),
            }),
    {
        match w {
            WriteOutcome::Done => {
                self.tracker.observe(&self.outgoing);
                self.after_socket()
            },
            WriteOutcome::Failed(_, detail) => self.fail(
                "attach stdout write failed: ",
                detail.as_str(),
            ),
        }
    }

    fn on_warm_poll(&mut self, event: LoopEvent) -> (r: LoopAction)
        requires
            old(self).wf(),
            old(self)@.stage == Stage::WarmPoll,
        ensures
            final(self).wf(),
            (final(self)@, r@) == loop_step(old(self)@, event),
    {
        match event {
            LoopEvent::PollInterrupted => self.again(),
            LoopEvent::PollFailed(detail) => self.fail(
                "poll() error in attach warm-up: ",
                detail.as_str(),
            ),
            LoopEvent::Ready { stdin: _, socket, hung_up, resize: _ } => {
                self.pending = Pending { socket: false, hung_up, resize: false };
                if socket {
                    self.stage = Stage::WarmRead;
                    LoopAction::ReadSocket
                } else {
                    self.after_socket()
                }
            },
            _ => self.finish(),
        }
    }

    fn on_poll(&mut self, event: LoopEvent) -> (r: LoopAction)
        requires
            old(self).wf(),
            old(self)@.stage == Stage::Poll,
        ensures
            final(self).wf(),
            (final(self)@, r@) == loop_step(old(self)@, event),
    {
        match event {
            LoopEvent::PollInterrupted => self.again(),
            LoopEvent::PollFailed(detail) => self.fail(
                "poll() error in attach loop: ",
                detail.as_str(),
            ),
            LoopEvent::Ready { stdin, socket, hung_up, resize } => {
                self.pending = Pending { socket, hung_up, resize };
                if stdin {
                    self.stage = Stage::StdinRead;
                    LoopAction::ReadStdin
                } else {
                    self.after_stdin()
                }
            },
            _ => self.finish(),
        }
    }

    fn on_stdin(&mut self, event: LoopEvent) -> (r: LoopAction)
        requires
            old(self).wf(),
            old(self)@.stage == Stage::StdinRead || old(self)@.stage == Stage::StdinWrite,
        ensures
            final(self).wf(),
            (final(self)@, r@) == loop_step(old(self)@, event),
    {
        match (self.stage, event) {
            (Stage::StdinRead, LoopEvent::Read(read)) => match read {
                ReadOutcome::Data(b) => {
                    self.stage = Stage::StdinWrite;
                    LoopAction::WriteSocket(b)
                },
                ReadOutcome::Eof => self.finish(),
                ReadOutcome::Retry => self.again(),
                ReadOutcome::Failed(_, detail) => self.fail(
                    "attach stdin read failed: ",
                    detail.as_str(),
                ),
            },
            (Stage::StdinWrite, LoopEvent::Written(w)) => match w {
                WriteOutcome::Done => self.after_stdin(),
                WriteOutcome::Failed(e, detail) => if is_socket_disconnect(e) {
                    self.finish()
                } else {
                    self.fail("attach socket write failed: ", detail.as_str())
                },
            },
            _ => self.finish(),
        }
    }

    fn on_window(&mut self, window: Option<Winsize>) -> (r: LoopAction)
        requires
            old(self).wf(),
            old(self)@.stage == Stage::Window,
        ensures
            final(self).wf(),
            (final(self)@, r@) == loop_step(old(self)@, LoopEvent::Window(window)),
    {
        match window {
            Some(ws) => if self.has_channel && resize_needed(self.last_winsize, ws) {
                self.stage = Stage::Resize;
                self.last_winsize = Some(ws);
                LoopAction::SendResize(ws)
            } else {
                self.again()
            },
            None => self.again(),
        }
    }

    /// What to do after `event`. An event that the stage does not wait for ends the loop.
    pub fn step(&mut self, event: LoopEvent) -> (r: LoopAction)
        requires
            old(self).wf(),
        ensures
            final(self).wf(),
            (final(self)@, r@) == loop_step(old(self)@, event),
    {
        match (self.stage, event) {
            (Stage::Clock, LoopEvent::Clock { warming_up }) => if warming_up {
                self.stage = Stage::WarmPoll;
                LoopAction::PollSocket
            } else {
                self.stage = Stage::Poll;
                LoopAction::PollAll
            },
            (Stage::WarmPoll, e) => self.on_warm_poll(e),
            (Stage::WarmRead, LoopEvent::Read(read)) => self.on_socket_read(
                read,
                Stage::WarmWrite,
            ),
            (Stage::WarmWrite, LoopEvent::Written(w)) => self.on_stdout_written(w),
            (Stage::Poll, e) => self.on_poll(e),
            (Stage::StdinRead, e) => self.on_stdin(e),
            (Stage::StdinWrite, e) => self.on_stdin(e),
            (Stage::SocketRead, LoopEvent::Read(read)) => self.on_socket_read(
                read,
                Stage::SocketWrite,
            ),
            (Stage::SocketWrite, LoopEvent::Written(w)) => self.on_stdout_written(w),
            (Stage::Window, LoopEvent::Window(window)) => self.on_window(window),
            (Stage::Resize, LoopEvent::ResizeSent) => self.again(),
            _ => self.finish(),
        }
    }
}

/// While the client warms up, the user's input is not read: no step from the warm-up stages asks
/// for it.
pub proof fn law_warm_up_holds_input_back(st: LoopState, event: LoopEvent)
    requires
        st.stage == Stage::WarmPoll || st.stage == Stage::WarmRead || st.stage == Stage::WarmWrite,
    ensures
        !(loop_step(st, event).1 is ReadStdin),
        !(loop_step(st, event).1 is WriteSocket),
{
}

/// What one side sends reaches the other unchanged: after a read with data the next action writes
/// just that data.
pub proof fn law_data_passes_unchanged(st: LoopState, data: Vec<u8>)
    requires
        st.stage == Stage::StdinRead || st.stage == Stage::SocketRead || st.stage
            == Stage::WarmRead,
    ensures
        loop_step(st, LoopEvent::Read(ReadOutcome::Data(data))).1 == (if st.stage
            == Stage::StdinRead {
            ActionView::WriteSocket(data@)
        } else {
            ActionView::WriteStdout(data@)
        }),
{
}

/// A loop that has ended stays so.
pub proof fn law_finished_stays_finished(st: LoopState, event: LoopEvent)
    requires
        st.stage == Stage::Done,
    ensures
        loop_step(st, event) == (st, ActionView::Finish),
{
    assert(loop_step(st, event).0 =~= st);
}

/// The loop ends exactly with the last action: with [`ActionView::Finish`] or with a failure.
pub proof fn law_last_action_ends_the_loop(st: LoopState, event: LoopEvent)
    requires
        st.stage != Stage::Done,
    ensures
        (loop_step(st, event).0.stage == Stage::Done) == (loop_step(st, event).1 is Finish
            || loop_step(st, event).1 is Fail),
{
}

} // verus!
