//! The whole path from a scripted backend to pane lines, driven
//! synchronously: the session decisions, the mock backend, and the pane
//! updates, as the UI-side loop performs them.

use std::collections::VecDeque;

use afar::ansi::{AnsiHandler, LineKind};
use afar::backend::mock::MockBackend;
use afar::backend::{
    BackendEvent, CloseReason, Session, SessionAction, SessionEvent, TerminalBackend,
    TerminalStatus, UiToBackend, READ_BUF_SIZE,
};
use afar::multi_terminal::{command_input, pane_effects, PaneEffect};

/// Runs a session over `mock` as the session loop does: UI messages first,
/// then reads. Returns the events the UI receives and the final status.
fn run_session(mock: &mut MockBackend, ui: &mut VecDeque<Option<UiToBackend>>) -> (Vec<BackendEvent>, TerminalStatus) {
    let mut session = Session::new();
    let mut action = SessionAction::Poll;
    let mut events = Vec::new();
    let mut status = TerminalStatus::Connected;
    loop {
        let ev = match action {
            SessionAction::Poll => match ui.pop_front() {
                Some(msg) => SessionEvent::Ui(msg),
                None => SessionEvent::Read(Ok(mock.read_chunk(READ_BUF_SIZE))),
            },
            SessionAction::Write(bytes) => {
                mock.write_bytes(&bytes);
                SessionEvent::Written(Ok(()))
            }
            SessionAction::Resize { cols, rows } => {
                SessionEvent::Resized(mock.resize(cols, rows).map_err(|e| e.to_string()))
            }
            SessionAction::Shutdown => SessionEvent::ShutDown,
            SessionAction::Forward(e) => {
                events.push(e);
                SessionEvent::Forwarded(true)
            }
            SessionAction::Finish { status: s, events: es } => {
                status = s;
                events.extend(es);
                break;
            }
            SessionAction::Exit => break,
        };
        action = session.step(ev);
    }
    (events, status)
}

struct PaneState {
    lines: Vec<(LineKind, String)>,
    status: TerminalStatus,
}

fn pump(events: Vec<BackendEvent>) -> PaneState {
    let mut ansi = AnsiHandler::new();
    let mut pane = PaneState { lines: Vec::new(), status: TerminalStatus::Connected };
    for ev in events {
        for effect in pane_effects(&mut ansi, ev) {
            match effect {
                PaneEffect::PushLine(l) => pane.lines.push((l.kind, l.text)),
                PaneEffect::SetStatus(s) => pane.status = s,
            }
        }
    }
    pane
}

#[test]
fn round_trip_bytes_and_remote_eof() {
    let mut mock = MockBackend::new(vec![b"hello".to_vec(), b" world\n".to_vec()]);
    let (events, final_status) = run_session(&mut mock, &mut VecDeque::new());

    let mut received = Vec::new();
    let mut closed = None;
    let mut last_status = None;
    for event in events {
        match event {
            BackendEvent::Bytes(b) => received.extend_from_slice(&b),
            BackendEvent::StatusChanged(s) => last_status = Some(s),
            BackendEvent::Closed { reason } => {
                closed = Some(reason);
                break;
            }
            BackendEvent::Lossy { .. } | BackendEvent::InputLost { .. } => {}
        }
    }

    assert_eq!(received, b"hello world\n");
    assert!(matches!(closed, Some(CloseReason::RemoteClosed)));
    assert_eq!(last_status, Some(TerminalStatus::Offline));
    assert_eq!(final_status, TerminalStatus::Offline);
}

#[test]
fn shutdown_request_closes_cleanly() {
    let mut mock = MockBackend::new(Vec::<Vec<u8>>::new());
    let mut ui = VecDeque::from(vec![Some(UiToBackend::Shutdown)]);
    let (events, _) = run_session(&mut mock, &mut ui);
    let closed: Vec<_> = events
        .iter()
        .filter_map(|e| match e {
            BackendEvent::Closed { reason } => Some(reason.clone()),
            _ => None,
        })
        .collect();
    assert_eq!(closed.len(), 1);
    assert!(matches!(closed[0], CloseReason::Requested | CloseReason::RemoteClosed));
}

#[test]
fn typed_input_and_resize_reach_the_backend() {
    let mut mock = MockBackend::new(vec![b"ok\n".to_vec()]);
    let mut ui = VecDeque::from(vec![
        Some(UiToBackend::Input(command_input("ls -la"))),
        Some(UiToBackend::Resize { cols: 132, rows: 43 }),
    ]);
    let (events, _) = run_session(&mut mock, &mut ui);
    assert_eq!(mock.written, b"ls -la\n".to_vec());
    assert_eq!(mock.resizes, vec![(132, 43)]);
    assert!(matches!(events.last(), Some(BackendEvent::Closed { reason: CloseReason::RemoteClosed })));
}

#[test]
fn dropped_ui_closes_as_requested() {
    let mut mock = MockBackend::new(vec![b"never read".to_vec()]);
    let mut ui = VecDeque::from(vec![None]);
    let (events, status) = run_session(&mut mock, &mut ui);
    assert_eq!(status, TerminalStatus::Offline);
    assert!(matches!(events.last(), Some(BackendEvent::Closed { reason: CloseReason::Requested })));
}

#[test]
fn bytes_flow_through_ansi_handler_into_pane_lines() {
    let mut mock = MockBackend::new(vec![b"\x1b[31merror: boom\n".to_vec()]);
    let (events, _) = run_session(&mut mock, &mut VecDeque::new());
    let pane = pump(events);
    let first = pane
        .lines
        .iter()
        .find(|l| l.1 == "error: boom")
        .expect("expected the SGR-coloured line in scrollback");
    assert_eq!(first.0, LineKind::Error);
}

#[test]
fn closed_event_sets_status_offline_and_emits_dim_marker() {
    let mut mock = MockBackend::new(vec![b"hi\n".to_vec()]);
    let (events, _) = run_session(&mut mock, &mut VecDeque::new());
    let pane = pump(events);
    assert_eq!(pane.status, TerminalStatus::Offline);
    assert!(
        pane.lines.iter().any(|l| l.1.contains("remote closed")),
        "expected [remote closed] divider; lines: {:?}",
        pane.lines.iter().map(|l| &l.1).collect::<Vec<_>>()
    );
    let divider = pane.lines.last().unwrap();
    assert_eq!(divider.0, LineKind::Dim);
    assert_eq!(divider.1, "[remote closed]");
}

#[test]
fn multiple_panes_are_drained_independently() {
    let mut mock_a = MockBackend::new(vec![b"alpha\n".to_vec()]);
    let mut mock_b = MockBackend::new(vec![b"beta\n".to_vec()]);
    let (events_a, _) = run_session(&mut mock_a, &mut VecDeque::new());
    let (events_b, _) = run_session(&mut mock_b, &mut VecDeque::new());
    let pane_a = pump(events_a);
    let pane_b = pump(events_b);
    assert!(pane_a.lines.iter().any(|l| l.1 == "alpha"));
    assert!(pane_b.lines.iter().any(|l| l.1 == "beta"));
    assert!(!pane_a.lines.iter().any(|l| l.1 == "beta"));
}

#[test]
fn mock_round_trip_emits_expected_lines() {
    let mut mock = MockBackend::new(vec![
        b"\x1b[32mok: built\x1b[0m\r\n".to_vec(),
        b"\x1b[33mwarn".to_vec(),
        b"ing: slow\n\x1b[1;34minfo\n".to_vec(),
        b"plain tail".to_vec(),
    ]);
    let (events, _) = run_session(&mut mock, &mut VecDeque::new());
    let pane = pump(events);
    let got: Vec<(LineKind, &str)> = pane.lines.iter().map(|l| (l.0, l.1.as_str())).collect();
    assert_eq!(
        got,
        vec![
            (LineKind::Success, "ok: built"),
            (LineKind::Out, ""),
            (LineKind::Warn, "warning: slow"),
            (LineKind::Info, "info"),
            (LineKind::Out, "plain tail"),
            (LineKind::Dim, "[remote closed]"),
        ]
    );
    assert_eq!(pane.status, TerminalStatus::Offline);
}

#[test]
fn several_inputs_reach_the_backend_in_order() {
    let mut mock = MockBackend::new(Vec::<Vec<u8>>::new());
    let mut ui = VecDeque::from(vec![
        Some(UiToBackend::Input(command_input("a"))),
        Some(UiToBackend::Resize { cols: 10, rows: 5 }),
        Some(UiToBackend::Input(command_input("bc"))),
        Some(UiToBackend::Resize { cols: 20, rows: 6 }),
        Some(UiToBackend::Input(command_input("d"))),
    ]);
    let _ = run_session(&mut mock, &mut ui);
    assert_eq!(mock.written, b"a\nbc\nd\n".to_vec());
    assert_eq!(mock.resizes, vec![(10, 5), (20, 6)]);
}

#[test]
fn forwarded_payloads_are_the_reads_in_order() {
    let mut mock = MockBackend::new(vec![vec![b'x'; READ_BUF_SIZE + 5], b"tail".to_vec()]);
    let (events, _) = run_session(&mut mock, &mut VecDeque::new());
    let sizes: Vec<usize> = events
        .iter()
        .filter_map(|e| match e {
            BackendEvent::Bytes(b) => Some(b.len()),
            _ => None,
        })
        .collect();
    assert_eq!(sizes, vec![READ_BUF_SIZE, 5, 4]);
}
