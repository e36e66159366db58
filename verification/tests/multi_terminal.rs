use afar::ansi::{AnsiHandler, LineKind};
use afar::backend::{BackendEvent, CloseReason, TerminalStatus};
use afar::multi_terminal::{carries_bytes, command_input, describe_close, pane_effects, PaneEffect};

fn lines_of(effects: &[PaneEffect]) -> Vec<(LineKind, String)> {
    effects
        .iter()
        .filter_map(|e| match e {
            PaneEffect::PushLine(l) => Some((l.kind, l.text.clone())),
            _ => None,
        })
        .collect()
}

#[test]
fn describe_close_texts() {
    assert_eq!(describe_close(&CloseReason::Requested), "[session ended]");
    assert_eq!(describe_close(&CloseReason::RemoteClosed), "[remote closed]");
    assert_eq!(
        describe_close(&CloseReason::TransportError("broken pipe".to_string())),
        "[transport error: broken pipe]"
    );
    assert_eq!(
        describe_close(&CloseReason::AuthFailed("no identities".to_string())),
        "[auth failed: no identities]"
    );
}

#[test]
fn command_input_appends_newline() {
    assert_eq!(command_input("uptime"), b"uptime\n".to_vec());
    assert_eq!(command_input(""), b"\n".to_vec());
    assert_eq!(command_input("é"), "é\n".as_bytes().to_vec());
}

#[test]
fn lossy_and_input_lost_markers() {
    let mut ansi = AnsiHandler::new();
    let e = pane_effects(&mut ansi, BackendEvent::Lossy { dropped: 4096 });
    assert_eq!(lines_of(&e), vec![(LineKind::Warn, "[4096 bytes dropped]".to_string())]);
    let e = pane_effects(&mut ansi, BackendEvent::Lossy { dropped: 0 });
    assert_eq!(lines_of(&e), vec![(LineKind::Warn, "[0 bytes dropped]".to_string())]);
    let e = pane_effects(&mut ansi, BackendEvent::InputLost { dropped: 12 });
    assert_eq!(lines_of(&e), vec![(LineKind::Warn, "[input lost: 12 bytes]".to_string())]);
}

#[test]
fn status_change_sets_status_only() {
    let mut ansi = AnsiHandler::new();
    let e = pane_effects(&mut ansi, BackendEvent::StatusChanged(TerminalStatus::Reconnecting));
    assert_eq!(e.len(), 1);
    assert!(matches!(e[0], PaneEffect::SetStatus(TerminalStatus::Reconnecting)));
}

#[test]
fn bytes_become_lines() {
    let mut ansi = AnsiHandler::new();
    let e = pane_effects(&mut ansi, BackendEvent::Bytes(b"a\n\x1b[31mb\nc".to_vec()));
    assert_eq!(
        lines_of(&e),
        vec![(LineKind::Out, "a".to_string()), (LineKind::Error, "b".to_string())]
    );
    assert_eq!(e.len(), 2);
}

#[test]
fn closed_flushes_partial_line_then_marks_offline() {
    let mut ansi = AnsiHandler::new();
    let _ = pane_effects(&mut ansi, BackendEvent::Bytes(b"$ ".to_vec()));
    let e = pane_effects(
        &mut ansi,
        BackendEvent::Closed { reason: CloseReason::TransportError("reset".to_string()) },
    );
    assert_eq!(e.len(), 3);
    assert!(matches!(&e[0], PaneEffect::PushLine(l) if l.text == "$ " && l.kind == LineKind::Out));
    assert!(matches!(e[1], PaneEffect::SetStatus(TerminalStatus::Offline)));
    assert!(matches!(&e[2], PaneEffect::PushLine(l) if l.text == "[transport error: reset]" && l.kind == LineKind::Dim));

    let e = pane_effects(&mut ansi, BackendEvent::Closed { reason: CloseReason::Requested });
    assert_eq!(e.len(), 2);
}

#[test]
fn only_bytes_events_carry_bytes() {
    assert!(carries_bytes(&BackendEvent::Bytes(Vec::new())));
    assert!(!carries_bytes(&BackendEvent::StatusChanged(TerminalStatus::Offline)));
    assert!(!carries_bytes(&BackendEvent::Lossy { dropped: 1 }));
    assert!(!carries_bytes(&BackendEvent::Closed { reason: CloseReason::Requested }));
}
