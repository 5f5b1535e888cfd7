use parallax::session::{DaemonState, DaemonStatus};
use parallax::status::{
    build_qr_uri, expand_socket_path, finish_stop, handle_status_command, parse_status_command,
    resolve_pairing_token, status_line, StatusCommand, StatusStep,
};
use parallax::streams::{StreamConfig, StreamMetrics, StreamTable};

fn status() -> DaemonStatus {
    DaemonStatus {
        state: DaemonState::Waiting,
        pin: Some("123456".to_string()),
        qr_uri: Some("prlx://1.2.3.4:7000?pin=123456".to_string()),
    }
}

fn table() -> StreamTable {
    StreamTable::new(&StreamConfig {
        display: ":0".to_string(),
        bind_addr: "0.0.0.0:5000".to_string(),
        target_addr: "127.0.0.1:5000".to_string(),
        prefer_vaapi: true,
    })
}

fn metrics() -> Vec<StreamMetrics> {
    (0..3)
        .map(|_| StreamMetrics { width: 0, height: 0, fps_x100: 0, bitrate_kbps: 0 })
        .collect()
}

#[test]
fn status_line_lists_state_pin_and_uri() {
    assert_eq!(
        status_line(&status()),
        "state=waiting pin=123456 qr=prlx://1.2.3.4:7000?pin=123456\n"
    );
    let bare = DaemonStatus { state: DaemonState::Idle, pin: None, qr_uri: None };
    assert_eq!(status_line(&bare), "state=idle\n");
}

#[test]
fn status_commands_are_read() {
    assert_eq!(parse_status_command("status\n"), StatusCommand::Status);
    assert_eq!(parse_status_command("start"), StatusCommand::Start(1));
    assert_eq!(parse_status_command(" start 2 \n"), StatusCommand::Start(2));
    assert_eq!(parse_status_command("start x"), StatusCommand::Start(1));
    assert_eq!(parse_status_command("start  2"), StatusCommand::Start(1));
    assert_eq!(parse_status_command("stop"), StatusCommand::Stop(1));
    assert_eq!(parse_status_command("stop 3"), StatusCommand::Stop(3));
    assert_eq!(parse_status_command("streams"), StatusCommand::Streams);
    assert_eq!(parse_status_command("bogus"), StatusCommand::Status);
    assert_eq!(parse_status_command(""), StatusCommand::Status);
}

#[test]
fn start_launches_and_streams() {
    let mut s = status();
    let mut t = table();
    match handle_status_command(&mut s, &mut t, &metrics(), "start 2\n") {
        StatusStep::Launch(id, config, reply) => {
            assert_eq!(id, 2);
            assert_eq!(config.display, "prlx-v2");
            assert_eq!(reply, "state=streaming pin=123456 qr=prlx://1.2.3.4:7000?pin=123456\n");
        }
        _ => panic!("expected a launch"),
    }
    assert_eq!(s.state, DaemonState::Streaming);
    // a second start finds it running: no launch
    match handle_status_command(&mut s, &mut t, &metrics(), "start 2") {
        StatusStep::Reply(reply) => assert!(reply.starts_with("state=streaming")),
        _ => panic!("expected a reply"),
    }
}

#[test]
fn failed_start_keeps_the_state() {
    let mut s = status();
    let mut t = table();
    match handle_status_command(&mut s, &mut t, &metrics(), "start 9") {
        StatusStep::Reply(reply) => assert!(reply.starts_with("state=waiting")),
        _ => panic!("expected a reply"),
    }
    assert_eq!(s.state, DaemonState::Waiting);
}

#[test]
fn stop_joins_then_reports_connected() {
    let mut s = status();
    let mut t = table();
    handle_status_command(&mut s, &mut t, &metrics(), "start");
    match handle_status_command(&mut s, &mut t, &metrics(), "stop") {
        StatusStep::Join(id) => assert_eq!(id, 1),
        _ => panic!("expected a join"),
    }
    assert_eq!(finish_stop(&mut s, true), "state=connected pin=123456 qr=prlx://1.2.3.4:7000?pin=123456\n");
    assert_eq!(s.state, DaemonState::Connected);
    // stopping it again fails, and the state stays
    match handle_status_command(&mut s, &mut t, &metrics(), "stop 1") {
        StatusStep::Reply(reply) => assert!(reply.starts_with("state=connected")),
        _ => panic!("expected a reply"),
    }
}

#[test]
fn failed_join_keeps_the_state() {
    let mut s = status();
    s.state = DaemonState::Streaming;
    assert!(finish_stop(&mut s, false).starts_with("state=streaming"));
    assert_eq!(s.state, DaemonState::Streaming);
}

#[test]
fn streams_command_sends_the_list() {
    let mut s = status();
    let mut t = table();
    match handle_status_command(&mut s, &mut t, &metrics(), "streams\n") {
        StatusStep::Reply(reply) => {
            assert!(reply.starts_with("protocol=2\nstreams:\n1,:0,"));
            assert!(reply.ends_with('\n'));
        }
        _ => panic!("expected a reply"),
    }
}

#[test]
fn qr_uri_carries_the_stream_port_and_pin() {
    assert_eq!(
        build_qr_uri("192.168.1.2", 7000, "127.0.0.1:5000", "123456"),
        "prlx://192.168.1.2:7000?streamPort=5000&pin=123456"
    );
    assert_eq!(
        build_qr_uri("192.168.1.2", 7000, "nowhere", "123456"),
        "prlx://192.168.1.2:7000?pin=123456"
    );
    assert_eq!(
        build_qr_uri("192.168.1.2", 7000, "127.0.0.1:5000", ""),
        "prlx://192.168.1.2:7000?streamPort=5000"
    );
    assert_eq!(build_qr_uri("10.0.0.1", 1, "x", ""), "prlx://10.0.0.1:1");
}

#[test]
fn pairing_token_is_kept_or_drawn() {
    assert_eq!(resolve_pairing_token("abc"), "abc");
    assert_eq!(resolve_pairing_token(""), "");
    let pin = resolve_pairing_token("auto");
    assert_eq!(pin.len(), 6);
    let n: u32 = pin.parse().unwrap();
    assert!((100_000..=999_999).contains(&n));
}

#[test]
fn socket_path_expands_the_home_directory() {
    assert_eq!(expand_socket_path("~/.local/x.sock", Some("/home/u")), "/home/u/.local/x.sock");
    assert_eq!(expand_socket_path("~/.local/x.sock", Some("/home/u/")), "/home/u/.local/x.sock");
    assert_eq!(expand_socket_path("~/.local/x.sock", None), "/tmp/.local/x.sock");
    assert_eq!(expand_socket_path("~//abs.sock", Some("/home/u")), "/abs.sock");
    assert_eq!(expand_socket_path("/run/x.sock", Some("/home/u")), "/run/x.sock");
    assert_eq!(expand_socket_path("~user/x", Some("/home/u")), "~user/x");
}
