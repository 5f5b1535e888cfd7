use parallax::session::{DaemonState, DaemonStatus as HostStatus};
use parallax::status::status_line;
use parallax::ui::{daemon_label, parse_status, DaemonPanel, UiState};

#[test]
fn labels() {
    assert_eq!(UiState::Idle.label(), "Idle");
    assert_eq!(UiState::Waiting.label(), "Waiting");
    assert_eq!(UiState::Connected.label(), "Connected");
    assert_eq!(UiState::Streaming.label(), "Streaming");
    assert_eq!(daemon_label(true), "Connected");
    assert_eq!(daemon_label(false), "Connecting…");
}

#[test]
fn status_line_is_parsed() {
    let s = parse_status("state=streaming pin=1 qr=x=y").unwrap();
    assert_eq!(s.state, UiState::Streaming);
    assert!(!s.connected);
    assert_eq!(s.pin.as_deref(), Some("1"));
    assert_eq!(s.qr_uri.as_deref(), Some("x=y"));
}

#[test]
fn unknown_state_keeps_idle() {
    let s = parse_status("state=bogus").unwrap();
    assert_eq!(s.state, UiState::Idle);
    assert!(s.pin.is_none());
}

#[test]
fn lines_without_known_keys_are_not_status() {
    assert!(parse_status("hello world").is_none());
    assert!(parse_status("").is_none());
    assert!(parse_status("other=1").is_none());
}

#[test]
fn what_the_daemon_writes_the_ui_reads_back() {
    let host = HostStatus {
        state: DaemonState::Connected,
        pin: Some("654321".to_string()),
        qr_uri: Some("prlx://10.0.0.2:40000?streamPort=5000&pin=654321".to_string()),
    };
    let line = status_line(&host);
    let s = parse_status(line.trim_end()).unwrap();
    assert_eq!(s.state, UiState::Connected);
    assert_eq!(s.pin.as_deref(), Some("654321"));
    assert_eq!(s.qr_uri.as_deref(), Some("prlx://10.0.0.2:40000?streamPort=5000&pin=654321"));
}

use parallax::ui::{
    command_line, not_connected_message, plan_command, response_event, send_failed_message,
    DaemonCommand, DaemonEvent,
};

#[test]
fn commands_send_their_lines() {
    assert_eq!(command_line(DaemonCommand::Refresh), ("status", "refresh"));
    assert_eq!(command_line(DaemonCommand::StartStream), ("start", "start"));
    assert_eq!(command_line(DaemonCommand::StopStream), ("stop", "stop"));
    assert_eq!(command_line(DaemonCommand::Shutdown), ("stop", "shutdown"));
    assert_eq!(not_connected_message(DaemonCommand::Refresh), "Daemon not connected; cannot refresh");
    assert_eq!(send_failed_message(DaemonCommand::Shutdown), "Failed to send shutdown command");
}

#[test]
fn commands_wait_or_end_the_daemon() {
    let p = plan_command(DaemonCommand::StartStream, false);
    assert!(!p.send && p.keep_pending && !p.end_child);
    let p = plan_command(DaemonCommand::Refresh, true);
    assert!(p.send && !p.keep_pending && !p.end_child);
    let p = plan_command(DaemonCommand::StopStream, false);
    assert!(!p.send && !p.keep_pending && p.end_child);
    let p = plan_command(DaemonCommand::Shutdown, true);
    assert!(p.send && !p.keep_pending && p.end_child);
}

#[test]
fn daemon_lines_become_events() {
    assert!(response_event("  \n").is_none());
    match response_event("state=waiting pin=1\n") {
        Some(DaemonEvent::Status(s)) => {
            assert_eq!(s.state, UiState::Waiting);
            assert!(s.connected);
        }
        other => panic!("expected a status, got {other:?}"),
    }
    match response_event("protocol=2 \n") {
        Some(DaemonEvent::Warning(w)) => assert_eq!(w, "protocol=2"),
        other => panic!("expected a warning, got {other:?}"),
    }
}

#[test]
fn status_needs_a_known_key() {
    assert!(parse_status("foo=1 bar").is_none());
    assert!(parse_status("pin").is_none());
    assert_eq!(parse_status("qr=").unwrap().qr_uri.as_deref(), Some(""));
}

#[test]
fn panel_takes_events() {
    let mut panel = DaemonPanel::new();
    panel.apply_event(DaemonEvent::Error("Socket error".to_string()));
    panel.apply_event(DaemonEvent::Warning("Waiting".to_string()));
    assert_eq!(panel.last_error.as_deref(), Some("Socket error"));
    assert_eq!(panel.last_warning.as_deref(), Some("Waiting"));
    let mut s = parse_status("state=waiting").unwrap();
    panel.apply_event(DaemonEvent::Status(s.clone()));
    assert_eq!(panel.last_error.as_deref(), Some("Socket error"));
    assert!(panel.last_warning.is_none());
    s.connected = true;
    panel.apply_event(DaemonEvent::Status(s));
    assert!(panel.last_error.is_none());
    assert_eq!(panel.status.state, UiState::Waiting);
    assert!(panel.status.connected);
}

#[test]
fn controls_follow_the_state() {
    let mut panel = DaemonPanel::new();
    assert!(panel.can_start());
    assert!(!panel.can_stop());
    assert_eq!(panel.chip_label(), "Connecting…");
    let mut s = parse_status("state=streaming").unwrap();
    s.connected = true;
    panel.apply_event(DaemonEvent::Status(s));
    assert!(!panel.can_start());
    assert!(panel.can_stop());
    assert_eq!(panel.chip_label(), "Streaming");
    let mut w = parse_status("state=waiting").unwrap();
    w.connected = true;
    panel.apply_event(DaemonEvent::Status(w));
    assert_eq!(panel.chip_label(), "Waiting");
    let mut i = parse_status("state=idle").unwrap();
    i.connected = true;
    panel.apply_event(DaemonEvent::Status(i));
    assert_eq!(panel.chip_label(), "Ready");
    assert!(panel.can_start());
}
