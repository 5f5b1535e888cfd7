use parallax::crypto::{derive_master_key, derive_session_key, hmac_sha256};
use parallax::protocol::{Frame, MessageType};
use parallax::session::{
    DaemonState, HandshakeState, Session, SessionOutcome, SessionRequest, SessionStep,
};

fn reply(step: SessionStep) -> (Vec<Frame>, Option<DaemonState>) {
    match step {
        SessionStep::Reply(frames, state) => (frames, state),
        SessionStep::Call(_) => panic!("expected a reply"),
    }
}

fn one(step: SessionStep) -> (MessageType, Vec<u8>, Option<DaemonState>) {
    let (frames, state) = reply(step);
    assert_eq!(frames.len(), 1);
    (frames[0].message_type, frames[0].payload.clone(), state)
}

fn msg(t: MessageType, payload: &[u8]) -> Frame {
    Frame::new(t, payload.to_vec())
}

/// Hello, then the pairing request with the token, answered with the nonce.
fn challenged(session: &mut Session, nonce: [u8; 32]) {
    one(session.handle_frame(msg(MessageType::Hello, b"")));
    let step = session.handle_frame(msg(MessageType::PairRequest, b"123456"));
    let request = match step {
        SessionStep::Call(r) => r,
        SessionStep::Reply(..) => panic!("expected a nonce request"),
    };
    assert!(matches!(request, SessionRequest::DrawNonce));
    let (t, payload, _) = one(session.resume(request, SessionOutcome::Nonce(nonce)));
    assert_eq!(t, MessageType::AuthChallenge);
    assert_eq!(payload, nonce.to_vec());
    assert_eq!(session.handshake_state(), HandshakeState::AwaitAuth);
}

fn paired(nonce: [u8; 32]) -> Session {
    let mut session = Session::new("123456".to_string(), "10.0.0.5".to_string(), None);
    challenged(&mut session, nonce);
    let key = derive_session_key(&derive_master_key("123456"), &nonce);
    let tag = hmac_sha256(&key, &nonce);
    let (t, _, state) = one(session.handle_frame(msg(MessageType::AuthResponse, &tag)));
    assert_eq!(t, MessageType::PairAccept);
    assert_eq!(state, Some(DaemonState::Connected));
    session
}

#[test]
fn hello_is_answered_and_moves_to_pairing() {
    let mut session = Session::new("123456".to_string(), "10.0.0.5".to_string(), None);
    let (t, payload, state) = one(session.handle_frame(msg(MessageType::Hello, b"")));
    assert_eq!(t, MessageType::HelloAck);
    assert_eq!(payload, b"prlx-host".to_vec());
    assert_eq!(state, Some(DaemonState::Waiting));
    assert_eq!(session.handshake_state(), HandshakeState::AwaitPairing);
    let (t, _, state) = one(session.handle_frame(msg(MessageType::Hello, b"")));
    assert_eq!(t, MessageType::HelloAck);
    assert_eq!(state, None);
}

#[test]
fn ping_gets_pong_in_any_state() {
    let mut session = Session::new("1".to_string(), "10.0.0.5".to_string(), None);
    let (t, payload, _) = one(session.handle_frame(msg(MessageType::Ping, b"x")));
    assert_eq!(t, MessageType::Pong);
    assert!(payload.is_empty());
}

#[test]
fn pairing_needs_hello_first() {
    let mut session = Session::new("123456".to_string(), "10.0.0.5".to_string(), None);
    let (t, payload, _) = one(session.handle_frame(msg(MessageType::PairRequest, b"123456")));
    assert_eq!(t, MessageType::Error);
    assert_eq!(payload, b"hello required".to_vec());
}

#[test]
fn wrong_token_is_rejected() {
    let mut session = Session::new("123456".to_string(), "10.0.0.5".to_string(), None);
    one(session.handle_frame(msg(MessageType::Hello, b"")));
    let (t, payload, _) = one(session.handle_frame(msg(MessageType::PairRequest, b"654321")));
    assert_eq!(t, MessageType::PairReject);
    assert_eq!(payload, b"invalid token".to_vec());
    let (t, payload, _) = one(session.handle_frame(msg(MessageType::PairRequest, &[0xff, 0xfe])));
    assert_eq!(t, MessageType::PairReject);
    assert_eq!(payload, b"invalid token encoding".to_vec());
}

#[test]
fn token_with_port_points_the_streams_at_the_client() {
    let mut session = Session::new("123456".to_string(), "10.0.0.5".to_string(), Some(5000));
    one(session.handle_frame(msg(MessageType::Hello, b"")));
    let request = match session.handle_frame(msg(MessageType::PairRequest, b"123456|9000")) {
        SessionStep::Call(r) => r,
        SessionStep::Reply(..) => panic!("expected a target request"),
    };
    match &request {
        SessionRequest::SetTarget(t) => assert_eq!(t, "10.0.0.5:9000"),
        _ => panic!("expected SetTarget"),
    }
    let next = session.resume(request, SessionOutcome::Done(Ok(())));
    assert!(matches!(next, SessionStep::Call(SessionRequest::DrawNonce)));
    assert_eq!(session.handshake_state(), HandshakeState::AwaitPairing);
}

#[test]
fn default_port_is_used_without_one_in_the_request() {
    let mut session = Session::new("123456".to_string(), "10.0.0.5".to_string(), Some(5000));
    one(session.handle_frame(msg(MessageType::Hello, b"")));
    match session.handle_frame(msg(MessageType::PairRequest, b"123456")) {
        SessionStep::Call(SessionRequest::SetTarget(t)) => assert_eq!(t, "10.0.0.5:5000"),
        _ => panic!("expected SetTarget"),
    }
}

#[test]
fn failed_target_is_reported() {
    let mut session = Session::new("123456".to_string(), "10.0.0.5".to_string(), Some(5000));
    one(session.handle_frame(msg(MessageType::Hello, b"")));
    let request = match session.handle_frame(msg(MessageType::PairRequest, b"123456")) {
        SessionStep::Call(r) => r,
        SessionStep::Reply(..) => panic!("expected a call"),
    };
    let (t, payload, _) = one(session.resume(request, SessionOutcome::Done(Err("lock poisoned".to_string()))));
    assert_eq!(t, MessageType::Error);
    assert_eq!(payload, b"lock poisoned".to_vec());
}

#[test]
fn full_pairing_then_stream_requests() {
    let mut session = paired([7u8; 32]);
    assert_eq!(session.handshake_state(), HandshakeState::Paired);
    let request = match session.handle_frame(msg(MessageType::StartStream, b"stream_id=2")) {
        SessionStep::Call(r) => r,
        SessionStep::Reply(..) => panic!("expected a call"),
    };
    assert!(matches!(request, SessionRequest::StartStream(2)));
    let (t, payload, state) = one(session.resume(request, SessionOutcome::Done(Ok(()))));
    assert_eq!(t, MessageType::StreamStarted);
    assert!(payload.is_empty());
    assert_eq!(state, Some(DaemonState::Streaming));

    let request = match session.handle_frame(msg(MessageType::StopStream, b"")) {
        SessionStep::Call(r) => r,
        SessionStep::Reply(..) => panic!("expected a call"),
    };
    assert!(matches!(request, SessionRequest::StopStream(1)));
    let (t, payload, state) =
        one(session.resume(request, SessionOutcome::Done(Err("stream not running".to_string()))));
    assert_eq!(t, MessageType::Error);
    assert_eq!(payload, b"stream not running".to_vec());
    assert_eq!(state, None);
}

#[test]
fn wrong_auth_response_is_rejected() {
    let mut session = Session::new("123456".to_string(), "10.0.0.5".to_string(), None);
    challenged(&mut session, [3u8; 32]);
    let (t, payload, _) = one(session.handle_frame(msg(MessageType::AuthResponse, &[0u8; 32])));
    assert_eq!(t, MessageType::PairReject);
    assert_eq!(payload, b"auth failed".to_vec());
    assert_ne!(session.handshake_state(), HandshakeState::Paired);
}

#[test]
fn short_auth_response_is_an_error() {
    let mut session = Session::new("123456".to_string(), "10.0.0.5".to_string(), None);
    challenged(&mut session, [3u8; 32]);
    let (t, payload, _) = one(session.handle_frame(msg(MessageType::AuthResponse, &[0u8; 5])));
    assert_eq!(t, MessageType::Error);
    assert_eq!(payload, b"invalid auth payload".to_vec());
}

#[test]
fn unexpected_auth_response_is_an_error() {
    let mut session = Session::new("123456".to_string(), "10.0.0.5".to_string(), None);
    let (t, payload, _) = one(session.handle_frame(msg(MessageType::AuthResponse, &[0u8; 32])));
    assert_eq!(t, MessageType::Error);
    assert_eq!(payload, b"auth not expected".to_vec());
}

#[test]
fn requests_before_pairing_are_refused() {
    let mut session = Session::new("123456".to_string(), "10.0.0.5".to_string(), None);
    one(session.handle_frame(msg(MessageType::Hello, b"")));
    for t in [
        MessageType::StartStream,
        MessageType::StopStream,
        MessageType::ListStreams,
        MessageType::SetStreamConfig,
        MessageType::ListDisplays,
        MessageType::AddVirtualDisplay,
        MessageType::RemoveVirtualDisplay,
    ] {
        let (rt, payload, state) = one(session.handle_frame(msg(t, b"")));
        assert_eq!(rt, MessageType::Error);
        assert_eq!(payload, b"pairing required".to_vec());
        assert_eq!(state, None);
    }
}

#[test]
fn used_nonce_is_drawn_again() {
    let nonce = [9u8; 32];
    let mut session = paired(nonce);
    let request = match session.handle_frame(msg(MessageType::PairRequest, b"123456")) {
        SessionStep::Call(r) => r,
        SessionStep::Reply(..) => panic!("expected a nonce request"),
    };
    let next = session.resume(request, SessionOutcome::Nonce(nonce));
    assert!(matches!(next, SessionStep::Call(SessionRequest::DrawNonce)));
}

#[test]
fn display_in_use_is_not_removed() {
    let mut session = paired([1u8; 32]);
    let request = match session.handle_frame(msg(MessageType::RemoveVirtualDisplay, b" prlx-v2 ")) {
        SessionStep::Call(r) => r,
        SessionStep::Reply(..) => panic!("expected a call"),
    };
    match &request {
        SessionRequest::CheckDisplayUnused(id) => assert_eq!(id, "prlx-v2"),
        _ => panic!("expected CheckDisplayUnused"),
    }
    let list = "protocol=2\nstreams:\n1,:0,0.0.0.0:5000,127.0.0.1:5000,true,false,0,0,0.00,0\n2,prlx-v2,0.0.0.0:5001,127.0.0.1:5001,true,true,1920,1080,59.94,4000\n";
    let (t, payload, _) = one(session.resume(request, SessionOutcome::Streams(Ok(list.to_string()))));
    assert_eq!(t, MessageType::Error);
    assert_eq!(payload, b"display is in use by an active stream".to_vec());
}

#[test]
fn unused_display_is_removed() {
    let mut session = paired([1u8; 32]);
    let request = match session.handle_frame(msg(MessageType::RemoveVirtualDisplay, b"prlx-v3")) {
        SessionStep::Call(r) => r,
        SessionStep::Reply(..) => panic!("expected a call"),
    };
    let list = "protocol=2\nstreams:\n3,prlx-v3,0.0.0.0:5002,127.0.0.1:5002,true,false,0,0,0.00,0\n";
    let next = session.resume(request, SessionOutcome::Streams(Ok(list.to_string())));
    let request = match next {
        SessionStep::Call(r) => r,
        SessionStep::Reply(..) => panic!("expected the removal"),
    };
    match &request {
        SessionRequest::DisableVirtualDisplay(id) => assert_eq!(id, "prlx-v3"),
        _ => panic!("expected DisableVirtualDisplay"),
    }
    let (t, payload, _) = one(session.resume(request, SessionOutcome::Done(Ok(()))));
    assert_eq!(t, MessageType::DisplayOpAck);
    assert_eq!(payload, b"virtual display removed".to_vec());
}

#[test]
fn unexpected_message_is_an_error() {
    let mut session = Session::new("1".to_string(), "10.0.0.5".to_string(), None);
    let (t, payload, _) = one(session.handle_frame(msg(MessageType::Pong, b"")));
    assert_eq!(t, MessageType::Error);
    assert_eq!(payload, b"Unexpected message".to_vec());
}

#[test]
fn a_challenge_is_answered_once() {
    let mut session = Session::new("123456".to_string(), "10.0.0.5".to_string(), None);
    challenged(&mut session, [4u8; 32]);
    let (t, _, _) = one(session.handle_frame(msg(MessageType::AuthResponse, &[0u8; 32])));
    assert_eq!(t, MessageType::PairReject);
    let (t, payload, _) = one(session.handle_frame(msg(MessageType::AuthResponse, &[0u8; 32])));
    assert_eq!(t, MessageType::Error);
    assert_eq!(payload, b"auth challenge missing".to_vec());

    let key = derive_session_key(&derive_master_key("123456"), &[5u8; 32]);
    let mut paired_session = paired([5u8; 32]);
    let tag = hmac_sha256(&key, &[5u8; 32]);
    let (t, payload, _) = one(paired_session.handle_frame(msg(MessageType::AuthResponse, &tag)));
    assert_eq!(t, MessageType::Error);
    assert_eq!(payload, b"auth not expected".to_vec());
}
