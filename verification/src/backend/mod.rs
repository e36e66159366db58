//! Backend trait, status and events, and the decisions of a backend
//! session.
//!
//! A session is a loop that concurrently reads from a backend and drains
//! messages from the UI. That loop performs I/O and awaits, so it runs
//! outside this library; every decision it takes is made here, by
//! [`Session::step`], from the outcome of the last operation to the next
//! operation.

use vstd::prelude::*;

pub mod local;
pub mod mock;
pub mod ssh;

verus! {

/// Per-poll read buffer size. Sized to amortise context switches without
/// holding back UI repaints under heavy output.
pub const READ_BUF_SIZE: usize = 4096;

/// Bound on each direction's channel between the UI and a session.
pub const CHANNEL_CAP: usize = 64;

/// A standard I/O error, held opaque.
#[verifier::external_type_specification]
#[verifier::external_body]
pub struct ExIoError(std::io::Error);

/// The category of a standard I/O error.
#[verifier::external_type_specification]
pub struct ExIoErrorKind(std::io::ErrorKind);

/// The kind of an I/O error, as `std::io::Error::kind` reports it.
pub uninterp spec fn io_error_kind(e: std::io::Error) -> std::io::ErrorKind;

/// An I/O error of kind `Unsupported` carrying `msg`.
///
/// Trusted: calls `std::io::Error::new(ErrorKind::Unsupported, msg)`; its
/// documentation says `kind()` of the result is the kind it was made with.
#[verifier::external_body]
pub(crate) fn unsupported_error(msg: &str) -> (e: std::io::Error)
    ensures
        io_error_kind(e) == std::io::ErrorKind::Unsupported,
{
    std::io::Error::new(std::io::ErrorKind::Unsupported, msg)
}

/// Connection status for a backend, mirrored into the pane header.
#[derive(Clone, Copy, Debug, PartialEq, Eq, Structural)]
pub enum TerminalStatus {
    Connected,
    Reconnecting,
    Offline,
}

/// The byte that stands for a status in the cheap-poll status cell.
pub open spec fn status_code(s: TerminalStatus) -> u8 {
    match s {
        TerminalStatus::Connected => 0,
        TerminalStatus::Reconnecting => 1,
        TerminalStatus::Offline => 2,
    }
}

impl TerminalStatus {
    /// The status a byte of the status cell stands for; every byte other
    /// than 0 and 1 reads as `Offline`.
    pub fn from_u8(v: u8) -> (s: Self)
        ensures
            v == 0 ==> s == TerminalStatus::Connected,
            v == 1 ==> s == TerminalStatus::Reconnecting,
            v >= 2 ==> s == TerminalStatus::Offline,
    {
        match v {
            0 => Self::Connected,
            1 => Self::Reconnecting,
            _ => Self::Offline,
        }
    }

    /// The byte that stands for this status.
    pub fn to_u8(self) -> (v: u8)
        ensures
            v == status_code(self),
    {
        match self {
            Self::Connected => 0,
            Self::Reconnecting => 1,
            Self::Offline => 2,
        }
    }
}

/// A status survives the round trip through its byte.
pub proof fn lemma_status_code_round_trip(s: TerminalStatus)
    ensures
        status_code(s) <= 2,
        (status_code(s) == 0 ==> s == TerminalStatus::Connected),
        (status_code(s) == 1 ==> s == TerminalStatus::Reconnecting),
        (status_code(s) == 2 ==> s == TerminalStatus::Offline),
{
}

/// The control operations a tty needs besides its byte stream.
///
/// A backend is also a byte stream (it reads and writes asynchronously);
/// the session loop that drives it requires that of its type as well.
pub trait TerminalBackend {
    /// PTY size changed. Backends without a PTY may return `Ok(())` and
    /// ignore it.
    fn resize(&mut self, cols: u16, rows: u16) -> std::io::Result<()>;
}

/// Reason a backend session ended.
#[derive(Clone, Debug)]
pub enum CloseReason {
    /// Caller requested shutdown.
    Requested,
    /// Remote end closed cleanly.
    RemoteClosed,
    /// Transport error after exhausting retries.
    TransportError(String),
    /// Auth failed, no retry will help.
    AuthFailed(String),
}

/// Event flowing from a session to the UI.
#[derive(Clone, Debug)]
pub enum BackendEvent {
    /// Output bytes from the remote.
    Bytes(Vec<u8>),
    /// Authoritative status change.
    StatusChanged(TerminalStatus),
    /// Output overflowed and `dropped` bytes were discarded.
    Lossy { dropped: usize },
    /// Pending input was discarded on reconnect.
    InputLost { dropped: usize },
    /// Session ended; no more events will follow.
    Closed { reason: CloseReason },
}

/// Message flowing from the UI to a session.
#[derive(Clone, Debug)]
pub enum UiToBackend {
    Input(Vec<u8>),
    Resize { cols: u16, rows: u16 },
    Shutdown,
}

/// Why a non-blocking send was refused; the refused value is handed back.
#[derive(Clone, Debug)]
pub enum TrySendFailure<T> {
    /// The channel is at capacity.
    Full(T),
    /// The receiving side is gone.
    Closed(T),
}

/// Recovers the input bytes from a refused `Input` message, keeping the
/// reason it was refused.
pub fn reclaim_input(failure: TrySendFailure<UiToBackend>) -> (res: TrySendFailure<Vec<u8>>)
    requires
        match failure {
            TrySendFailure::Full(m) => m is Input,
            TrySendFailure::Closed(m) => m is Input,
        },
    ensures
        match (failure, res) {
            (TrySendFailure::Full(UiToBackend::Input(b)), TrySendFailure::Full(r)) => r@ == b@,
            (TrySendFailure::Closed(UiToBackend::Input(b)), TrySendFailure::Closed(r)) => r@ == b@,
            _ => false,
        },
{
    match failure {
        TrySendFailure::Full(UiToBackend::Input(b)) => TrySendFailure::Full(b),
        TrySendFailure::Closed(UiToBackend::Input(b)) => TrySendFailure::Closed(b),
        TrySendFailure::Full(_) => {
            assert(false);
            TrySendFailure::Full(Vec::new())
        },
        TrySendFailure::Closed(_) => {
            assert(false);
            TrySendFailure::Closed(Vec::new())
        },
    }
}

// ---------------------------------------------------------------------
// The session loop's decisions
// ---------------------------------------------------------------------

/// The outcome of the operation a session last performed.
#[derive(Debug)]
pub enum SessionEvent {
    /// The UI channel yielded a message, or `None` once the UI dropped its
    /// handle.
    Ui(Option<UiToBackend>),
    /// Writing input to the backend finished (an error carries its text).
    Written(Result<(), String>),
    /// Resizing the backend finished (an error carries its text).
    Resized(Result<(), String>),
    /// Shutting the backend down finished; its outcome does not matter.
    ShutDown,
    /// A read from the backend finished: the bytes read (none at end of
    /// stream) or the error text.
    Read(Result<Vec<u8>, String>),
    /// Forwarding an event to the UI finished; `false` when the UI dropped
    /// its receiver (the session then ends as if asked to).
    Forwarded(bool),
}

/// What the session loop does next.
#[derive(Clone, Debug)]
pub enum SessionAction {
    /// Wait for the next UI message or backend read, UI messages first.
    Poll,
    /// Write these bytes to the backend.
    Write(Vec<u8>),
    /// Resize the backend.
    Resize { cols: u16, rows: u16 },
    /// Shut the backend down.
    Shutdown,
    /// Send this event to the UI.
    Forward(BackendEvent),
    /// The session is over: mark the status cell with this status, send
    /// these events to the UI (ignoring failures), and stop.
    Finish { status: TerminalStatus, events: Vec<BackendEvent> },
    /// Stop: the session was already over.
    Exit,
}

/// The events that end a session: status `Offline`, then `Closed`.
pub open spec fn closing_events(reason: CloseReason) -> Seq<BackendEvent> {
    seq![
        BackendEvent::StatusChanged(TerminalStatus::Offline),
        BackendEvent::Closed { reason },
    ]
}

/// A session action, with the events of a `Finish` taken by their contents.
pub enum ActionView {
    Poll,
    Write(Vec<u8>),
    Resize { cols: u16, rows: u16 },
    Shutdown,
    Forward(BackendEvent),
    Finish { status: TerminalStatus, events: Seq<BackendEvent> },
    Exit,
}

impl View for SessionAction {
    type V = ActionView;

    open spec fn view(&self) -> ActionView {
        match *self {
            SessionAction::Poll => ActionView::Poll,
            SessionAction::Write(b) => ActionView::Write(b),
            SessionAction::Resize { cols, rows } => ActionView::Resize { cols, rows },
            SessionAction::Shutdown => ActionView::Shutdown,
            SessionAction::Forward(e) => ActionView::Forward(e),
            SessionAction::Finish { status, events } => ActionView::Finish { status, events: events@ },
            SessionAction::Exit => ActionView::Exit,
        }
    }
}

/// Whether an action ends the session.
pub open spec fn is_final(a: ActionView) -> bool {
    a is Finish || a is Exit
}

/// Finishing with a reason: status `Offline` and the closing events.
pub open spec fn finish_with(reason: CloseReason) -> ActionView {
    ActionView::Finish { status: TerminalStatus::Offline, events: closing_events(reason) }
}

/// The action that follows an event, and whether the session is over
/// afterwards. `done` tells whether it was over before.
pub open spec fn session_step(done: bool, ev: SessionEvent) -> (bool, ActionView) {
    if done {
        (true, ActionView::Exit)
    } else {
        match ev {
            SessionEvent::Ui(Some(UiToBackend::Input(b))) => (false, ActionView::Write(b)),
            SessionEvent::Ui(Some(UiToBackend::Resize { cols, rows })) => (
                false,
                ActionView::Resize { cols, rows },
            ),
            SessionEvent::Ui(Some(UiToBackend::Shutdown)) => (false, ActionView::Shutdown),
            SessionEvent::Ui(None) => (false, ActionView::Shutdown),
            SessionEvent::Written(Ok(())) => (false, ActionView::Poll),
            SessionEvent::Resized(Ok(())) => (false, ActionView::Poll),
            SessionEvent::Forwarded(true) => (false, ActionView::Poll),
            SessionEvent::Written(Err(e)) => (true, finish_with(CloseReason::TransportError(e))),
            SessionEvent::Resized(Err(e)) => (true, finish_with(CloseReason::TransportError(e))),
            SessionEvent::ShutDown => (true, finish_with(CloseReason::Requested)),
            SessionEvent::Read(Ok(b)) => {
                if b@.len() == 0 {
                    (true, finish_with(CloseReason::RemoteClosed))
                } else {
                    (false, ActionView::Forward(BackendEvent::Bytes(b)))
                }
            },
            SessionEvent::Read(Err(e)) => (true, finish_with(CloseReason::TransportError(e))),
            SessionEvent::Forwarded(false) => (true, finish_with(CloseReason::Requested)),
        }
    }
}

/// The actions that follow a sequence of events.
pub open spec fn session_run(done: bool, evs: Seq<SessionEvent>) -> (bool, Seq<ActionView>)
    decreases evs.len(),
{
    if evs.len() == 0 {
        (done, Seq::empty())
    } else {
        let prev = session_run(done, evs.drop_last());
        let next = session_step(prev.0, evs.last());
        (next.0, prev.1.push(next.1))
    }
}

/// The decision state of one backend session.
pub struct Session {
    done: bool,
}

impl Session {
    /// Whether the session is over.
    pub closed spec fn is_done(&self) -> bool {
        self.done
    }

    /// A running session.
    pub fn new() -> (s: Session)
        ensures
            !s.is_done(),
    {
        Session { done: false }
    }

    /// Decides what follows `ev`.
    pub fn step(&mut self, ev: SessionEvent) -> (action: SessionAction)
        ensures
            final(self).is_done() == session_step(old(self).is_done(), ev).0,
            action@ == session_step(old(self).is_done(), ev).1,
    {
        if self.done {
            return SessionAction::Exit;
        }
        match ev {
            SessionEvent::Ui(Some(UiToBackend::Input(b))) => SessionAction::Write(b),
            SessionEvent::Ui(Some(UiToBackend::Resize { cols, rows })) => SessionAction::Resize {
                cols,
                rows,
            },
            SessionEvent::Ui(Some(UiToBackend::Shutdown)) => SessionAction::Shutdown,
            SessionEvent::Ui(None) => SessionAction::Shutdown,
            SessionEvent::Written(Ok(())) => SessionAction::Poll,
            SessionEvent::Resized(Ok(())) => SessionAction::Poll,
            SessionEvent::Forwarded(true) => SessionAction::Poll,
            SessionEvent::Written(Err(e)) => {
                self.done = true;
                finish(CloseReason::TransportError(e))
            },
            SessionEvent::Resized(Err(e)) => {
                self.done = true;
                finish(CloseReason::TransportError(e))
            },
            SessionEvent::ShutDown => {
                self.done = true;
                finish(CloseReason::Requested)
            },
            SessionEvent::Read(Ok(b)) => {
                if b.len() == 0 {
                    assert(b@.len() == 0);
                    self.done = true;
                    finish(CloseReason::RemoteClosed)
                } else {
                    SessionAction::Forward(BackendEvent::Bytes(b))
                }
            },
            SessionEvent::Read(Err(e)) => {
                self.done = true;
                finish(CloseReason::TransportError(e))
            },
            SessionEvent::Forwarded(false) => {
                self.done = true;
                finish(CloseReason::Requested)
            },
        }
    }
}

fn finish(reason: CloseReason) -> (a: SessionAction)
    ensures
        a@ == finish_with(reason),
{
    let mut events: Vec<BackendEvent> = Vec::new();
    events.push(BackendEvent::StatusChanged(TerminalStatus::Offline));
    events.push(BackendEvent::Closed { reason });
    assert(events@ =~= closing_events(reason));
    SessionAction::Finish { status: TerminalStatus::Offline, events }
}

} // verus!

verus! {

/// A session ends once: after the first action that ends it (a `Finish`
/// or an `Exit`), every later action is `Exit`, so the UI hears of the end
/// at most once and nothing after it.
pub proof fn lemma_session_ends_once(evs: Seq<SessionEvent>)
    ensures
        forall|i: int, j: int|
            0 <= i < j < session_run(false, evs).1.len() && is_final(
                #[trigger] session_run(false, evs).1[i],
            ) ==> #[trigger] session_run(false, evs).1[j] is Exit,
{
    lemma_session_run_facts(false, evs);
}

/// The reason a session ends with, for an event that ends it: an I/O error
/// is a transport error, an empty read is the remote closing, and a
/// shutdown (asked for, or the UI gone) is a requested close.
pub open spec fn end_reason(ev: SessionEvent) -> CloseReason {
    match ev {
        SessionEvent::Written(Err(e)) => CloseReason::TransportError(e),
        SessionEvent::Resized(Err(e)) => CloseReason::TransportError(e),
        SessionEvent::Read(Err(e)) => CloseReason::TransportError(e),
        SessionEvent::Read(Ok(_)) => CloseReason::RemoteClosed,
        _ => CloseReason::Requested,
    }
}

/// The session state before the `i`-th event.
pub open spec fn done_before(done: bool, evs: Seq<SessionEvent>, i: int) -> bool {
    session_run(done, evs.take(i)).0
}

/// One action per event: the `i`-th action is what the `i`-th event gives
/// in the state the earlier events left.
pub proof fn lemma_session_aligned(done: bool, evs: Seq<SessionEvent>)
    ensures
        session_run(done, evs).1.len() == evs.len(),
        forall|i: int|
            0 <= i < evs.len() ==> #[trigger] session_run(done, evs).1[i] == session_step(
                done_before(done, evs, i),
                evs[i],
            ).1,
    decreases evs.len(),
{
    if evs.len() > 0 {
        let init = evs.drop_last();
        lemma_session_aligned(done, init);
        assert(evs.take(init.len() as int) =~= init);
        assert forall|i: int| 0 <= i < evs.len() implies #[trigger] session_run(done, evs).1[i]
            == session_step(done_before(done, evs, i), evs[i]).1 by {
            if i < init.len() {
                assert(evs.take(i) =~= init.take(i));
                assert(evs[i] == init[i]);
            }
        }
    }
}

/// Whether an event is the failure of a backend operation (a read, a
/// write or a resize), and `e` its text.
pub open spec fn is_io_failure(ev: SessionEvent, e: String) -> bool {
    ev == SessionEvent::Read(Err(e)) || ev == SessionEvent::Written(Err(e)) || ev
        == SessionEvent::Resized(Err(e))
}

/// Every I/O failure ends a running session at once, whatever its text:
/// the session is over, its status becomes `Offline`, and the UI gets
/// `StatusChanged(Offline)` followed by exactly one `Closed` that carries
/// the error text as a transport error.
pub proof fn lemma_session_io_failure_ends(ev: SessionEvent, e: String)
    requires
        is_io_failure(ev, e),
    ensures
        session_step(false, ev).0,
        session_step(false, ev).1 == (ActionView::Finish {
            status: TerminalStatus::Offline,
            events: seq![
                BackendEvent::StatusChanged(TerminalStatus::Offline),
                BackendEvent::Closed { reason: CloseReason::TransportError(e) },
            ],
        }),
{
}

/// In a run of events, the first I/O failure met while the session runs
/// is answered by finishing with that error as a transport error, and the
/// session is over from then on: every later event gets `Exit`.
pub proof fn lemma_session_run_io_failure(evs: Seq<SessionEvent>, i: int, e: String)
    requires
        0 <= i < evs.len(),
        !done_before(false, evs, i),
        is_io_failure(evs[i], e),
    ensures
        session_run(false, evs).1[i] == finish_with(CloseReason::TransportError(e)),
        forall|j: int|
            i < j < evs.len() ==> #[trigger] session_run(false, evs).1[j] == ActionView::Exit,
{
    lemma_session_aligned(false, evs);
    lemma_session_io_failure_ends(evs[i], e);
    assert forall|j: int| i < j < evs.len() implies #[trigger] session_run(false, evs).1[j]
        == ActionView::Exit by {
        lemma_done_stays(evs, i, j);
    }
}

proof fn lemma_done_stays(evs: Seq<SessionEvent>, i: int, j: int)
    requires
        0 <= i < j <= evs.len(),
        session_step(done_before(false, evs, i), evs[i]).0,
    ensures
        done_before(false, evs, j),
    decreases j - i,
{
    if j == i + 1 {
        assert(evs.take(j).drop_last() =~= evs.take(i));
        assert(evs.take(j).last() == evs[i]);
    } else {
        lemma_done_stays(evs, i, j - 1);
        assert(evs.take(j).drop_last() =~= evs.take(j - 1));
    }
}

proof fn lemma_step_finish(d: bool, ev: SessionEvent)
    ensures
        match session_step(d, ev).1 {
            ActionView::Finish { status, events } => status == TerminalStatus::Offline && events
                == closing_events(end_reason(ev)),
            _ => true,
        },
        session_step(d, ev).1 matches ActionView::Forward(e) ==> (!d && (ev matches SessionEvent::Read(
            Ok(b),
        ) && b@.len() > 0 && e == BackendEvent::Bytes(b))),
{
}

/// Every `Finish` carries status `Offline` and exactly the closing events:
/// `StatusChanged(Offline)` followed by one `Closed`, whose reason is the
/// event that ended the session.
pub proof fn lemma_session_finish_events(done: bool, evs: Seq<SessionEvent>)
    ensures
        forall|i: int|
            0 <= i < session_run(done, evs).1.len() ==> match #[trigger] session_run(done, evs).1[i] {
                ActionView::Finish { status, events } => status == TerminalStatus::Offline && events
                    == closing_events(end_reason(evs[i])),
                _ => true,
            },
{
    lemma_session_aligned(done, evs);
    assert forall|i: int| 0 <= i < session_run(done, evs).1.len() implies match #[trigger] session_run(
        done,
        evs,
    ).1[i] {
        ActionView::Finish { status, events } => status == TerminalStatus::Offline && events
            == closing_events(end_reason(evs[i])),
        _ => true,
    } by {
        lemma_step_finish(done_before(done, evs, i), evs[i]);
    }
}

/// Output reaches the UI as read, in order: an action forwards an event
/// only for a non-empty read at the same place, as `Bytes` of exactly what
/// was read; and while the session runs, every non-empty read is forwarded.
pub proof fn lemma_session_forwards_reads(done: bool, evs: Seq<SessionEvent>)
    ensures
        forall|i: int|
            0 <= i < session_run(done, evs).1.len() ==> (#[trigger] session_run(done, evs).1[i] matches ActionView::Forward(
                e,
            ) ==> (evs[i] matches SessionEvent::Read(Ok(b)) && b@.len() > 0 && e
                == BackendEvent::Bytes(b))),
        forall|i: int|
            0 <= i < evs.len() && !done_before(done, evs, i) ==> (#[trigger] evs[i] matches SessionEvent::Read(
                Ok(b),
            ) ==> (b@.len() > 0 ==> session_run(done, evs).1[i] == ActionView::Forward(
                BackendEvent::Bytes(b),
            ))),
{
    lemma_session_aligned(done, evs);
    assert forall|i: int| 0 <= i < session_run(done, evs).1.len() implies (#[trigger] session_run(
        done,
        evs,
    ).1[i] matches ActionView::Forward(e) ==> (evs[i] matches SessionEvent::Read(Ok(b)) && b@.len()
        > 0 && e == BackendEvent::Bytes(b))) by {
        lemma_step_finish(done_before(done, evs, i), evs[i]);
    }
}

/// A forwarded payload is never empty and never longer than the reads it
/// came from: with every read at most `READ_BUF_SIZE` bytes, each `Bytes`
/// event holds between 1 and `READ_BUF_SIZE` bytes.
pub proof fn lemma_session_forward_sizes(done: bool, evs: Seq<SessionEvent>)
    requires
        forall|i: int|
            0 <= i < evs.len() ==> (#[trigger] evs[i] matches SessionEvent::Read(Ok(b)) ==> b@.len()
                <= READ_BUF_SIZE),
    ensures
        forall|i: int|
            0 <= i < session_run(done, evs).1.len() ==> (#[trigger] session_run(done, evs).1[i] matches ActionView::Forward(
                BackendEvent::Bytes(b),
            ) ==> 1 <= b@.len() <= READ_BUF_SIZE),
{
    lemma_session_forwards_reads(done, evs);
    lemma_session_aligned(done, evs);
    assert forall|i: int| 0 <= i < session_run(done, evs).1.len() implies (#[trigger] session_run(
        done,
        evs,
    ).1[i] matches ActionView::Forward(BackendEvent::Bytes(b)) ==> 1 <= b@.len() <= READ_BUF_SIZE) by {
        assert(evs[i] matches SessionEvent::Read(Ok(b)) ==> b@.len() <= READ_BUF_SIZE);
    }
}

/// The outcome a backend operation for a UI message reports when it
/// succeeds.
pub open spec fn completion(m: UiToBackend) -> SessionEvent {
    match m {
        UiToBackend::Input(_) => SessionEvent::Written(Ok(())),
        UiToBackend::Resize { .. } => SessionEvent::Resized(Ok(())),
        UiToBackend::Shutdown => SessionEvent::ShutDown,
    }
}

/// The events of a session that receives `msgs` from the UI, each followed
/// by the successful outcome of the operation it asked for.
pub open spec fn ui_session(msgs: Seq<UiToBackend>) -> Seq<SessionEvent>
    decreases msgs.len(),
{
    if msgs.len() == 0 {
        Seq::empty()
    } else {
        ui_session(msgs.drop_last()) + seq![SessionEvent::Ui(Some(msgs.last())), completion(msgs.last())]
    }
}

/// The backend operation a UI message asks for.
pub open spec fn backend_op(m: UiToBackend) -> ActionView {
    match m {
        UiToBackend::Input(b) => ActionView::Write(b),
        UiToBackend::Resize { cols, rows } => ActionView::Resize { cols, rows },
        UiToBackend::Shutdown => ActionView::Shutdown,
    }
}

/// The actions for `msgs`: each message's operation, then waiting again.
pub open spec fn backend_ops(msgs: Seq<UiToBackend>) -> Seq<ActionView>
    decreases msgs.len(),
{
    if msgs.len() == 0 {
        Seq::empty()
    } else {
        backend_ops(msgs.drop_last()) + seq![backend_op(msgs.last()), ActionView::Poll]
    }
}

/// Input and resizes reach the backend exactly once each, in the order the
/// UI sent them and with the same arguments, and the session keeps running.
pub proof fn lemma_session_applies_ui_in_order(msgs: Seq<UiToBackend>)
    requires
        forall|i: int| 0 <= i < msgs.len() ==> !(#[trigger] msgs[i] is Shutdown),
    ensures
        session_run(false, ui_session(msgs)) == (false, backend_ops(msgs)),
    decreases msgs.len(),
{
    if msgs.len() > 0 {
        let init = msgs.drop_last();
        assert forall|i: int| 0 <= i < init.len() implies !(#[trigger] init[i] is Shutdown) by {
            assert(init[i] == msgs[i]);
        }
        lemma_session_applies_ui_in_order(init);
        let m = msgs.last();
        assert(!(msgs[msgs.len() - 1] is Shutdown));
        let evs = ui_session(msgs);
        let pre = ui_session(init);
        assert(evs.drop_last() =~= pre.push(SessionEvent::Ui(Some(m))));
        assert(evs.drop_last().drop_last() =~= pre);
        assert(evs.last() == completion(m));
        assert(evs.drop_last().last() == SessionEvent::Ui(Some(m)));
        assert(session_step(false, SessionEvent::Ui(Some(m))) == (false, backend_op(m)));
        assert(session_step(false, completion(m)) == (false, ActionView::Poll));
        assert(session_run(false, evs.drop_last()) == (false, backend_ops(init).push(backend_op(m))));
        assert(backend_ops(init).push(backend_op(m)).push(ActionView::Poll) =~= backend_ops(msgs));
    }
}

proof fn lemma_session_run_facts(done: bool, evs: Seq<SessionEvent>)
    ensures
        done ==> session_run(done, evs).0,
        done ==> forall|j: int|
            0 <= j < session_run(done, evs).1.len() ==> #[trigger] session_run(done, evs).1[j] is Exit,
        forall|i: int|
            0 <= i < session_run(done, evs).1.len() && is_final(#[trigger] session_run(done, evs).1[i])
                ==> session_run(done, evs).0,
        forall|i: int, j: int|
            0 <= i < j < session_run(done, evs).1.len() && is_final(
                #[trigger] session_run(done, evs).1[i],
            ) ==> #[trigger] session_run(done, evs).1[j] is Exit,
    decreases evs.len(),
{
    if evs.len() > 0 {
        lemma_session_run_facts(done, evs.drop_last());
        let prev = session_run(done, evs.drop_last());
        let next = session_step(prev.0, evs.last());
        let acts = prev.1.push(next.1);
        assert(prev.0 ==> next.0 && next.1 is Exit);
        assert(is_final(next.1) ==> next.0);
        assert forall|i: int| 0 <= i < acts.len() && is_final(#[trigger] acts[i]) implies next.0 by {
            if i < prev.1.len() {
                assert(acts[i] == prev.1[i]);
            }
        }
        assert forall|i: int, j: int|
            0 <= i < j < acts.len() && is_final(#[trigger] acts[i]) implies #[trigger] acts[j] is Exit by {
            assert(acts[i] == prev.1[i]);
            if j < prev.1.len() {
                assert(acts[j] == prev.1[j]);
            }
        }
        if done {
            assert forall|j: int| 0 <= j < acts.len() implies #[trigger] acts[j] is Exit by {
                if j < prev.1.len() {
                    assert(acts[j] == prev.1[j]);
                }
            }
        }
    }
}

} // verus!
