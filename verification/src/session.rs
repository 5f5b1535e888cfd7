//! One control session: the pairing handshake (hello, token, HMAC challenge)
//! and the requests a paired client may make.
//!
//! The session decides; the caller performs the outside work that a decision
//! asks for (setting the stream target, drawing a random nonce, starting and
//! stopping streams, listing and changing displays) and hands back what came of
//! it, until the session answers with the frames to send.
use vstd::prelude::*;

use crate::crypto::{derive_master_key, derive_session_key, verify_hmac_sha256, NONCE_LEN};
use crate::crypto;
use crate::display::{DisplayInfo, DisplayInfoView, VirtualDisplay, VirtualDisplayView};
use crate::display;
use crate::payloads::{
    is_display_used_by_running_stream, parse_add_display_payload,
    parse_optional_stream_id_payload, parse_pair_request, parse_remove_display_payload,
    parse_set_stream_config_payload, ConfigFields, SetStreamConfigPayload,
};
use crate::payloads;
use crate::protocol::{Frame, MessageType};
use crate::text;
use crate::text::{chars_utf8, push_dec, push_str, str_utf8, string_bytes};

verus! {

/// Where a session is in the pairing handshake.
#[derive(Debug, Clone, Copy, PartialEq, Eq, Structural)]
pub enum HandshakeState {
    AwaitHello,
    AwaitPairing,
    AwaitAuth,
    Paired,
}

/// What the daemon shows of itself on its status socket.
#[derive(Debug, Clone, Copy, PartialEq, Eq, Structural)]
pub enum DaemonState {
    Idle,
    Waiting,
    Connected,
    Streaming,
}

/// The daemon's state with the pairing PIN and the QR code URI.
#[derive(Debug, Clone)]
pub struct DaemonStatus {
    pub state: DaemonState,
    pub pin: Option<String>,
    pub qr_uri: Option<String>,
}

/// A control session with one client.
pub struct Session {
    state: HandshakeState,
    pairing_token: String,
    client_ip: String,
    default_target_port: Option<u16>,
    pending_nonce: Option<[u8; 32]>,
    used_nonces: Vec<[u8; 32]>,
    master_key: Vec<u8>,
    session_key: Option<Vec<u8>>,
}

pub struct SessionView {
    pub state: HandshakeState,
    pub token: Seq<char>,
    pub client_ip: Seq<char>,
    pub default_port: Option<u16>,
    pub pending: Option<Seq<u8>>,
    pub used: Seq<Seq<u8>>,
    pub master_key: Seq<u8>,
    pub session_key: Option<Seq<u8>>,
}

pub open spec fn nonce_views(ns: Seq<[u8; 32]>) -> Seq<Seq<u8>> {
    ns.map_values(|n: [u8; 32]| n@)
}

impl View for Session {
    type V = SessionView;

    closed spec fn view(&self) -> SessionView {
        SessionView {
            state: self.state,
            token: self.pairing_token@,
            client_ip: self.client_ip@,
            default_port: self.default_target_port,
            pending: match self.pending_nonce {
                Some(n) => Some(n@),
                None => None,
            },
            used: nonce_views(self.used_nonces@),
            master_key: self.master_key@,
            session_key: match self.session_key {
                Some(k) => Some(k@),
                None => None,
            },
        }
    }
}

/// No nonce occurs twice.
pub open spec fn distinct(ns: Seq<Seq<u8>>) -> bool {
    forall|i: int, j: int| 0 <= i < j < ns.len() ==> ns[i] != ns[j]
}

/// The master key belongs to the pairing token, and no accepted nonce repeats.
pub open spec fn session_wf(s: SessionView) -> bool {
    &&& s.master_key == crypto::spec_pbkdf2_sha256(
        text::utf8(s.token),
        crypto::pbkdf2_salt(),
        crypto::PBKDF2_ITERATIONS,
        crypto::KEY_LEN,
    )
    &&& distinct(s.used)
}

/// Outside work a session asks for.
pub enum SessionRequest {
    /// Point every stream at the client (`StreamCoordinator::set_target`).
    SetTarget(String),
    /// Draw a random challenge nonce.
    DrawNonce,
    StartStream(u32),
    StopStream(u32),
    ListStreams,
    SetStreamConfig(SetStreamConfigPayload),
    /// List the physical displays.
    ListPhysicalDisplays,
    /// List the virtual displays, the physical ones being known.
    ListVirtualDisplays(Vec<DisplayInfo>),
    EnableVirtualDisplay(VirtualDisplay),
    /// List the streams, to see that none runs on the display to remove.
    CheckDisplayUnused(String),
    DisableVirtualDisplay(String),
}

/// What came of the outside work.
pub enum SessionOutcome {
    Done(Result<(), String>),
    Streams(Result<String, String>),
    Nonce([u8; 32]),
    Physical(Result<Vec<DisplayInfo>, String>),
    Virtual(Result<Vec<VirtualDisplay>, String>),
}

/// The session's answer: frames to send (and the daemon state to show, if it
/// changes), or outside work to do first.
pub enum SessionStep {
    Reply(Vec<Frame>, Option<DaemonState>),
    Call(SessionRequest),
}

pub enum RequestView {
    SetTarget(Seq<char>),
    DrawNonce,
    StartStream(u32),
    StopStream(u32),
    ListStreams,
    SetStreamConfig(ConfigFields),
    ListPhysicalDisplays,
    ListVirtualDisplays(Seq<DisplayInfoView>),
    EnableVirtualDisplay(VirtualDisplayView),
    CheckDisplayUnused(Seq<char>),
    DisableVirtualDisplay(Seq<char>),
}

pub enum OutcomeView {
    Done(Result<(), Seq<char>>),
    Streams(Result<Seq<char>, Seq<char>>),
    Nonce(Seq<u8>),
    Physical(Result<Seq<DisplayInfoView>, Seq<char>>),
    Virtual(Result<Seq<VirtualDisplayView>, Seq<char>>),
}

pub enum StepView {
    Reply(Seq<(MessageType, Seq<u8>)>, Option<DaemonState>),
    Call(RequestView),
}

pub open spec fn frames_view(fs: Seq<Frame>) -> Seq<(MessageType, Seq<u8>)> {
    fs.map_values(|f: Frame| (f.message_type, f.payload@))
}

pub open spec fn res_unit(r: Result<(), String>) -> Result<(), Seq<char>> {
    match r {
        Ok(()) => Ok(()),
        Err(e) => Err(e@),
    }
}

pub open spec fn res_text(r: Result<String, String>) -> Result<Seq<char>, Seq<char>> {
    match r {
        Ok(t) => Ok(t@),
        Err(e) => Err(e@),
    }
}

impl View for SessionRequest {
    type V = RequestView;

    open spec fn view(&self) -> RequestView {
        match self {
            SessionRequest::SetTarget(t) => RequestView::SetTarget(t@),
            SessionRequest::DrawNonce => RequestView::DrawNonce,
            SessionRequest::StartStream(id) => RequestView::StartStream(*id),
            SessionRequest::StopStream(id) => RequestView::StopStream(*id),
            SessionRequest::ListStreams => RequestView::ListStreams,
            SessionRequest::SetStreamConfig(c) => RequestView::SetStreamConfig(c@),
            SessionRequest::ListPhysicalDisplays => RequestView::ListPhysicalDisplays,
            SessionRequest::ListVirtualDisplays(ps) => RequestView::ListVirtualDisplays(
                display::display_views(ps@),
            ),
            SessionRequest::EnableVirtualDisplay(d) => RequestView::EnableVirtualDisplay(d@),
            SessionRequest::CheckDisplayUnused(id) => RequestView::CheckDisplayUnused(id@),
            SessionRequest::DisableVirtualDisplay(id) => RequestView::DisableVirtualDisplay(id@),
        }
    }
}

impl View for SessionOutcome {
    type V = OutcomeView;

    open spec fn view(&self) -> OutcomeView {
        match self {
            SessionOutcome::Done(r) => OutcomeView::Done(res_unit(*r)),
            SessionOutcome::Streams(r) => OutcomeView::Streams(res_text(*r)),
            SessionOutcome::Nonce(n) => OutcomeView::Nonce(n@),
            SessionOutcome::Physical(r) => OutcomeView::Physical(
                match r {
                    Ok(ps) => Ok(display::display_views(ps@)),
                    Err(e) => Err(e@),
                },
            ),
            SessionOutcome::Virtual(r) => OutcomeView::Virtual(
                match r {
                    Ok(vs) => Ok(display::virtual_views(vs@)),
                    Err(e) => Err(e@),
                },
            ),
        }
    }
}

impl View for SessionStep {
    type V = StepView;

    open spec fn view(&self) -> StepView {
        match self {
            SessionStep::Reply(fs, ds) => StepView::Reply(frames_view(fs@), *ds),
            SessionStep::Call(r) => StepView::Call(r@),
        }
    }
}

/// Whether an outcome is of the kind the request asks for.
pub open spec fn outcome_fits(req: RequestView, out: OutcomeView) -> bool {
    match req {
        RequestView::SetTarget(_) | RequestView::StartStream(_) | RequestView::StopStream(_)
        | RequestView::SetStreamConfig(_) | RequestView::EnableVirtualDisplay(_)
        | RequestView::DisableVirtualDisplay(_) => out is Done,
        RequestView::DrawNonce => out is Nonce,
        RequestView::ListStreams | RequestView::CheckDisplayUnused(_) => out is Streams,
        RequestView::ListPhysicalDisplays => out is Physical,
        RequestView::ListVirtualDisplays(_) => out is Virtual,
    }
}

// ---------------------------------------------------------------------------
// The transitions
// ---------------------------------------------------------------------------
pub open spec fn reply1(t: MessageType, p: Seq<u8>, ds: Option<DaemonState>) -> StepView {
    StepView::Reply(seq![(t, p)], ds)
}

/// An `Error` frame carrying the text.
pub open spec fn error_reply(msg: Seq<char>) -> StepView {
    reply1(MessageType::Error, text::utf8(msg), None)
}

/// The target that pairing points the streams at: the client's address and the port.
pub open spec fn target_text(ip: Seq<char>, port: u16) -> Seq<char> {
    ip + ":"@ + text::dec(port as nat)
}

/// The requests that need a paired session.
pub open spec fn needs_pairing(t: MessageType) -> bool {
    match t {
        MessageType::StartStream | MessageType::StopStream | MessageType::ListStreams
        | MessageType::SetStreamConfig | MessageType::ListDisplays
        | MessageType::AddVirtualDisplay | MessageType::RemoveVirtualDisplay => true,
        _ => false,
    }
}

pub open spec fn on_pair_request(s: SessionView, p: Seq<u8>) -> (SessionView, StepView) {
    if s.state == HandshakeState::AwaitHello {
        (s, error_reply("hello required"@))
    } else {
        match payloads::pair_request_meaning(p) {
            None => (s, reply1(MessageType::PairReject, text::utf8("invalid token encoding"@), None)),
            Some((tok, port)) => if tok == s.token {
                if s.state == HandshakeState::AwaitAuth {
                    (s, error_reply("auth in progress"@))
                } else {
                    let chosen = if port is Some {
                        port
                    } else {
                        s.default_port
                    };
                    match chosen {
                        Some(pt) => (
                            s,
                            StepView::Call(RequestView::SetTarget(target_text(s.client_ip, pt))),
                        ),
                        None => (s, StepView::Call(RequestView::DrawNonce)),
                    }
                }
            } else {
                (s, reply1(MessageType::PairReject, text::utf8("invalid token"@), None))
            },
        }
    }
}

pub open spec fn on_auth_response(s: SessionView, p: Seq<u8>) -> (SessionView, StepView) {
    if s.state != HandshakeState::AwaitAuth {
        (s, error_reply("auth not expected"@))
    } else if p.len() != crypto::HMAC_LEN {
        (s, error_reply("invalid auth payload"@))
    } else {
        match s.pending {
            None => (s, error_reply("auth challenge missing"@)),
            Some(n) => {
                let s1 = SessionView { pending: None, ..s };
                if s.used.contains(n) {
                    (s1, error_reply("nonce reused"@))
                } else {
                    let key = crypto::session_key_of(s.master_key, n);
                    if p != crypto::spec_hmac_sha256(key, n) {
                        (s1, reply1(MessageType::PairReject, text::utf8("auth failed"@), None))
                    } else {
                        (
                            SessionView {
                                pending: None,
                                used: s.used.push(n),
                                session_key: Some(key),
                                state: HandshakeState::Paired,
                                ..s
                            },
                            reply1(
                                MessageType::PairAccept,
                                Seq::empty(),
                                Some(DaemonState::Connected),
                            ),
                        )
                    }
                }
            },
        }
    }
}

/// A request of a paired session, before any outside work.
pub open spec fn on_paired_request(t: MessageType, p: Seq<u8>) -> StepView {
    match t {
        MessageType::StartStream => match payloads::stream_id_meaning(p) {
            Err(e) => error_reply(e),
            Ok(id) => StepView::Call(RequestView::StartStream(id)),
        },
        MessageType::StopStream => match payloads::stream_id_meaning(p) {
            Err(e) => error_reply(e),
            Ok(id) => StepView::Call(RequestView::StopStream(id)),
        },
        MessageType::ListStreams => StepView::Call(RequestView::ListStreams),
        MessageType::SetStreamConfig => match payloads::stream_config_meaning(p) {
            Err(e) => error_reply(e),
            Ok(c) => StepView::Call(RequestView::SetStreamConfig(c)),
        },
        MessageType::ListDisplays => StepView::Call(RequestView::ListPhysicalDisplays),
        MessageType::AddVirtualDisplay => match payloads::add_display_meaning(p) {
            Err(e) => error_reply(e),
            Ok(d) => StepView::Call(RequestView::EnableVirtualDisplay(d)),
        },
        _ => match payloads::remove_display_meaning(p) {
            Err(e) => error_reply(e),
            Ok(id) => StepView::Call(RequestView::CheckDisplayUnused(id)),
        },
    }
}

/// What a session does with a frame: the new session and its answer.
pub open spec fn on_frame(s: SessionView, t: MessageType, p: Seq<u8>) -> (SessionView, StepView) {
    match t {
        MessageType::Hello => if s.state == HandshakeState::AwaitHello {
            (
                SessionView { state: HandshakeState::AwaitPairing, ..s },
                reply1(
                    MessageType::HelloAck,
                    text::utf8("prlx-host"@),
                    Some(DaemonState::Waiting),
                ),
            )
        } else {
            (s, reply1(MessageType::HelloAck, text::utf8("prlx-host"@), None))
        },
        MessageType::PairRequest => on_pair_request(s, p),
        MessageType::AuthResponse => on_auth_response(s, p),
        MessageType::Ping => (s, reply1(MessageType::Pong, Seq::empty(), None)),
        _ => if needs_pairing(t) {
            if s.state != HandshakeState::Paired {
                (s, error_reply("pairing required"@))
            } else {
                (s, on_paired_request(t, p))
            }
        } else {
            (s, error_reply("Unexpected message"@))
        },
    }
}

pub open spec fn done_reply(r: Result<(), Seq<char>>, t: MessageType, p: Seq<u8>, ds: Option<DaemonState>) -> StepView {
    match r {
        Ok(()) => reply1(t, p, ds),
        Err(e) => error_reply(e),
    }
}

/// What a session does with the outcome of the outside work it asked for.
pub open spec fn on_outcome(s: SessionView, req: RequestView, out: OutcomeView) -> (SessionView, StepView) {
    match (req, out) {
        (RequestView::SetTarget(_), OutcomeView::Done(r)) => match r {
            Ok(()) => (s, StepView::Call(RequestView::DrawNonce)),
            Err(e) => (s, error_reply(e)),
        },
        (RequestView::DrawNonce, OutcomeView::Nonce(n)) => if s.used.contains(n) {
            (s, StepView::Call(RequestView::DrawNonce))
        } else {
            (
                SessionView { pending: Some(n), state: HandshakeState::AwaitAuth, ..s },
                reply1(MessageType::AuthChallenge, n, None),
            )
        },
        (RequestView::StartStream(_), OutcomeView::Done(r)) => (
            s,
            done_reply(r, MessageType::StreamStarted, Seq::empty(), Some(DaemonState::Streaming)),
        ),
        (RequestView::StopStream(_), OutcomeView::Done(r)) => (
            s,
            done_reply(r, MessageType::StreamStopped, Seq::empty(), Some(DaemonState::Connected)),
        ),
        (RequestView::ListStreams, OutcomeView::Streams(r)) => match r {
            Ok(t) => (s, reply1(MessageType::Streams, text::utf8(t), None)),
            Err(e) => (s, error_reply(e)),
        },
        (RequestView::SetStreamConfig(_), OutcomeView::Done(r)) => (
            s,
            done_reply(r, MessageType::StreamConfigAck, text::utf8("stream config updated"@), None),
        ),
        (RequestView::ListPhysicalDisplays, OutcomeView::Physical(r)) => match r {
            Ok(ps) => (s, StepView::Call(RequestView::ListVirtualDisplays(ps))),
            Err(e) => (s, error_reply(e)),
        },
        (RequestView::ListVirtualDisplays(ps), OutcomeView::Virtual(r)) => match r {
            Ok(vs) => (
                s,
                reply1(
                    MessageType::Displays,
                    text::utf8(display::displays_payload_text(ps, vs)),
                    None,
                ),
            ),
            Err(e) => (s, error_reply(e)),
        },
        (RequestView::EnableVirtualDisplay(_), OutcomeView::Done(r)) => (
            s,
            done_reply(r, MessageType::DisplayOpAck, text::utf8("virtual display added"@), None),
        ),
        (RequestView::CheckDisplayUnused(id), OutcomeView::Streams(r)) => match r {
            Ok(t) => if payloads::display_in_use(t, id) {
                (s, error_reply("display is in use by an active stream"@))
            } else {
                (s, StepView::Call(RequestView::DisableVirtualDisplay(id)))
            },
            Err(e) => (s, error_reply(e)),
        },
        (RequestView::DisableVirtualDisplay(_), OutcomeView::Done(r)) => (
            s,
            done_reply(r, MessageType::DisplayOpAck, text::utf8("virtual display removed"@), None),
        ),
        _ => (s, error_reply("Unexpected message"@)),
    }
}

// ---------------------------------------------------------------------------
// Laws
// ---------------------------------------------------------------------------
/// A session that is not paired answers every stream or display request with
/// `Error: pairing required` and stays as it was.
pub proof fn lemma_pairing_required(s: SessionView, t: MessageType, p: Seq<u8>)
    requires
        needs_pairing(t),
        s.state != HandshakeState::Paired,
    ensures
        on_frame(s, t, p) == (s, error_reply("pairing required"@)),
{
}

/// A paired session answers `ListDisplays` by asking first for the physical
/// displays and then for the virtual ones, and replies with one `Displays`
/// frame that lists every physical display under `physical:` and every virtual
/// one under `virtual:`, in the order reported; a failed listing is answered
/// with its error. The session itself does not change.
pub proof fn lemma_list_displays(
    s: SessionView,
    p: Seq<u8>,
    ps: Seq<DisplayInfoView>,
    vs: Seq<VirtualDisplayView>,
    e: Seq<char>,
)
    requires
        s.state == HandshakeState::Paired,
    ensures
        on_frame(s, MessageType::ListDisplays, p) == (s, StepView::Call(RequestView::ListPhysicalDisplays)),
        on_outcome(
            s,
            RequestView::ListPhysicalDisplays,
            OutcomeView::Physical(Ok(ps)),
        ) == (s, StepView::Call(RequestView::ListVirtualDisplays(ps))),
        on_outcome(
            s,
            RequestView::ListVirtualDisplays(ps),
            OutcomeView::Virtual(Ok(vs)),
        ) == (
            s,
            reply1(
                MessageType::Displays,
                text::utf8(
                    "protocol=2\nphysical:\n"@ + display::physical_payload_rows(ps) + "virtual:\n"@
                        + display::virtual_payload_rows(vs),
                ),
                None,
            ),
        ),
        on_outcome(s, RequestView::ListPhysicalDisplays, OutcomeView::Physical(Err(e))) == (
            s,
            error_reply(e),
        ),
        on_outcome(s, RequestView::ListVirtualDisplays(ps), OutcomeView::Virtual(Err(e))) == (
            s,
            error_reply(e),
        ),
{
    reveal_strlit("protocol=2\nphysical:\n");
    reveal_strlit("protocol=2\n");
    reveal_strlit("physical:\n");
    assert("protocol=2\n"@ + "physical:\n"@ =~= "protocol=2\nphysical:\n"@);
}

/// `Ping` is answered with an empty `Pong` in every state, and changes nothing.
pub proof fn lemma_ping(s: SessionView, p: Seq<u8>)
    ensures
        on_frame(s, MessageType::Ping, p) == (s, reply1(MessageType::Pong, Seq::empty(), None)),
{
}

/// A session becomes paired only by an `AuthResponse`, while a challenge is
/// pending, whose payload is the HMAC of the challenge nonce under the session
/// key derived from the master key and that nonce, and only for a nonce not
/// accepted before; the nonce is then recorded as used.
pub proof fn lemma_paired_only_by_valid_response(s: SessionView, t: MessageType, p: Seq<u8>)
    requires
        s.state != HandshakeState::Paired,
        on_frame(s, t, p).0.state == HandshakeState::Paired,
    ensures
        t == MessageType::AuthResponse,
        s.state == HandshakeState::AwaitAuth,
        s.pending is Some,
        !s.used.contains(s.pending->0),
        p == crypto::spec_hmac_sha256(
            crypto::session_key_of(s.master_key, s.pending->0),
            s.pending->0,
        ),
        on_frame(s, t, p).0.used == s.used.push(s.pending->0),
        on_frame(s, t, p).0.session_key == Some(
            crypto::session_key_of(s.master_key, s.pending->0),
        ),
{
}

/// A challenge is answered at most once: an `AuthResponse` of the right length
/// clears the pending challenge whether or not it authenticates, and a second
/// one is then refused, with `auth challenge missing` while the session still
/// waits for authentication and `auth not expected` once it is paired.
pub proof fn lemma_challenge_answered_once(s: SessionView, p: Seq<u8>, p2: Seq<u8>)
    requires
        s.state == HandshakeState::AwaitAuth,
        p.len() == crypto::HMAC_LEN,
        p2.len() == crypto::HMAC_LEN,
    ensures
        ({
            let s1 = on_frame(s, MessageType::AuthResponse, p).0;
            &&& s1.pending is None
            &&& s1.state == HandshakeState::AwaitAuth || s1.state == HandshakeState::Paired
            &&& s1.state == HandshakeState::AwaitAuth ==> on_frame(s1, MessageType::AuthResponse, p2)
                == (s1, error_reply("auth challenge missing"@))
            &&& s1.state == HandshakeState::Paired ==> on_frame(s1, MessageType::AuthResponse, p2)
                == (s1, error_reply("auth not expected"@))
        }),
{
}

/// No outcome of outside work pairs a session.
pub proof fn lemma_outcome_never_pairs(s: SessionView, req: RequestView, out: OutcomeView)
    requires
        s.state != HandshakeState::Paired,
    ensures
        on_outcome(s, req, out).0.state != HandshakeState::Paired,
{
}

/// A virtual display on which the stream list shows a running stream is not
/// removed: the session answers with an error and asks for nothing more.
pub proof fn lemma_display_in_use_not_removed(s: SessionView, id: Seq<char>, list: Seq<char>)
    requires
        payloads::display_in_use(list, id),
    ensures
        on_outcome(s, RequestView::CheckDisplayUnused(id), OutcomeView::Streams(Ok(list)))
            == (s, error_reply("display is in use by an active stream"@)),
{
}

/// A challenge nonce is never one that was accepted before.
pub proof fn lemma_challenge_is_fresh(s: SessionView, n: Seq<u8>)
    ensures
        on_outcome(s, RequestView::DrawNonce, OutcomeView::Nonce(n)).1 == reply1(
            MessageType::AuthChallenge,
            n,
            None,
        ) ==> !s.used.contains(n),
        s.used.contains(n) ==> on_outcome(s, RequestView::DrawNonce, OutcomeView::Nonce(n)) == (
            s,
            StepView::Call(RequestView::DrawNonce),
        ),
{
    if s.used.contains(n) {
        assert(StepView::Call(RequestView::DrawNonce) != reply1(MessageType::AuthChallenge, n, None));
    }
}

/// Accepted nonces are never forgotten: each step keeps the record, adding at
/// most one nonce at its end.
pub proof fn lemma_used_nonces_grow(s: SessionView, t: MessageType, p: Seq<u8>, req: RequestView, out: OutcomeView)
    ensures
        on_frame(s, t, p).0.used == s.used || exists|n: Seq<u8>|
            on_frame(s, t, p).0.used == #[trigger] s.used.push(n),
        on_outcome(s, req, out).0.used == s.used,
{
    if on_frame(s, t, p).0.used != s.used {
        let n = s.pending->0;
        assert(on_frame(s, t, p).0.used == s.used.push(n));
    }
}

/// The client name, token and master key of a session never change.
pub proof fn lemma_identity_fixed(s: SessionView, t: MessageType, p: Seq<u8>, req: RequestView, out: OutcomeView)
    ensures
        on_frame(s, t, p).0.token == s.token,
        on_frame(s, t, p).0.master_key == s.master_key,
        on_frame(s, t, p).0.client_ip == s.client_ip,
        on_outcome(s, req, out).0.token == s.token,
        on_outcome(s, req, out).0.master_key == s.master_key,
{
}

// ---------------------------------------------------------------------------
// Implementation
// ---------------------------------------------------------------------------
fn reply_one(t: MessageType, payload: Vec<u8>, ds: Option<DaemonState>) -> (r: SessionStep)
    ensures
        r@ == reply1(t, payload@, ds),
{
    let mut frames: Vec<Frame> = Vec::new();
    frames.push(Frame::new(t, payload));
    assert(frames_view(frames@) =~= seq![(t, payload@)]);
    SessionStep::Reply(frames, ds)
}

fn reply_text(t: MessageType, msg: &str, ds: Option<DaemonState>) -> (r: SessionStep)
    ensures
        r@ == reply1(t, text::utf8(msg@), ds),
{
    reply_one(t, str_utf8(msg), ds)
}

fn error_str(msg: &str) -> (r: SessionStep)
    ensures
        r@ == error_reply(msg@),
{
    reply_text(MessageType::Error, msg, None)
}

fn error_string(msg: &String) -> (r: SessionStep)
    ensures
        r@ == error_reply(msg@),
{
    reply_one(MessageType::Error, string_bytes(msg), None)
}

fn nonce_eq(a: &[u8; 32], b: &[u8; 32]) -> (r: bool)
    ensures
        r == (a@ == b@),
{
    for i in 0..32
        invariant
            a@.len() == 32,
            b@.len() == 32,
            forall|k: int| 0 <= k < i ==> a@[k] == b@[k],
    {
        if a[i] != b[i] {
            return false;
        }
    }
    assert(a@ =~= b@);
    true
}

impl Session {
    /// A session waiting for `Hello`, keyed by the master key of the pairing
    /// token; `client_ip` is the text of the client's IP address.
    pub fn new(pairing_token: String, client_ip: String, default_target_port: Option<u16>) -> (s:
        Self)
        ensures
            s@ == (SessionView {
                state: HandshakeState::AwaitHello,
                token: pairing_token@,
                client_ip: client_ip@,
                default_port: default_target_port,
                pending: None,
                used: Seq::empty(),
                master_key: crypto::spec_pbkdf2_sha256(
                    text::utf8(pairing_token@),
                    crypto::pbkdf2_salt(),
                    crypto::PBKDF2_ITERATIONS,
                    crypto::KEY_LEN,
                ),
                session_key: None,
            }),
            session_wf(s@),
    {
        let master_key = derive_master_key(pairing_token.as_str());
        let s = Session {
            state: HandshakeState::AwaitHello,
            master_key,
            pairing_token,
            client_ip,
            default_target_port,
            pending_nonce: None,
            used_nonces: Vec::new(),
            session_key: None,
        };
        assert(nonce_views(s.used_nonces@) =~= Seq::<Seq<u8>>::empty());
        s
    }

    /// Where the session is in the handshake.
    pub fn handshake_state(&self) -> (st: HandshakeState)
        ensures
            st == self@.state,
    {
        self.state
    }

    fn nonce_used(&self, n: &[u8; 32]) -> (r: bool)
        ensures
            r == self@.used.contains(n@),
    {
        let ghost used = self@.used;
        for i in 0..self.used_nonces.len()
            invariant
                used == nonce_views(self.used_nonces@),
                forall|k: int| 0 <= k < i ==> used[k] != n@,
        {
            if nonce_eq(&self.used_nonces[i], n) {
                assert(used[i as int] == n@);
                return true;
            }
        }
        false
    }

    fn handle_pair_request(&mut self, payload: &[u8]) -> (r: SessionStep)
        requires
            session_wf(old(self)@),
        ensures
            (final(self)@, r@) == on_pair_request(old(self)@, payload@),
    {
        if self.state == HandshakeState::AwaitHello {
            return error_str("hello required");
        }
        let (token, target_port) = match parse_pair_request(payload) {
            Ok(t) => t,
            Err(()) => return reply_text(MessageType::PairReject, "invalid token encoding", None),
        };
        if token == self.pairing_token {
            if self.state == HandshakeState::AwaitAuth {
                return error_str("auth in progress");
            }
            let chosen = match target_port {
                Some(p) => Some(p),
                None => self.default_target_port,
            };
            match chosen {
                Some(port) => {
                    let mut target: Vec<char> = Vec::new();
                    push_str(&mut target, self.client_ip.as_str());
                    push_str(&mut target, ":");
                    push_dec(&mut target, port as u64);
                    assert(target@ =~= target_text(self@.client_ip, port));
                    SessionStep::Call(SessionRequest::SetTarget(text::string_of(&target)))
                },
                None => SessionStep::Call(SessionRequest::DrawNonce),
            }
        } else {
            reply_text(MessageType::PairReject, "invalid token", None)
        }
    }

    fn handle_auth_response(&mut self, payload: &[u8]) -> (r: SessionStep)
        requires
            session_wf(old(self)@),
        ensures
            (final(self)@, r@) == on_auth_response(old(self)@, payload@),
            session_wf(final(self)@),
    {
        if self.state != HandshakeState::AwaitAuth {
            return error_str("auth not expected");
        }
        if payload.len() != crypto::HMAC_LEN {
            return error_str("invalid auth payload");
        }
        let nonce = match self.pending_nonce.take() {
            Some(n) => n,
            None => return error_str("auth challenge missing"),
        };
        if self.nonce_used(&nonce) {
            return error_str("nonce reused");
        }
        let session_key = derive_session_key(self.master_key.as_slice(), &nonce);
        if !verify_hmac_sha256(session_key.as_slice(), &nonce, payload) {
            return reply_text(MessageType::PairReject, "auth failed", None);
        }
        let ghost before = self@.used;
        self.used_nonces.push(nonce);
        assert(nonce_views(self.used_nonces@) =~= before.push(nonce@));
        self.session_key = Some(session_key);
        self.state = HandshakeState::Paired;
        reply_one(MessageType::PairAccept, Vec::new(), Some(DaemonState::Connected))
    }

    fn handle_paired_request(&self, t: MessageType, payload: &[u8]) -> (r: SessionStep)
        requires
            needs_pairing(t),
        ensures
            r@ == on_paired_request(t, payload@),
    {
        match t {
            MessageType::StartStream => match parse_optional_stream_id_payload(payload) {
                Ok(id) => SessionStep::Call(SessionRequest::StartStream(id)),
                Err(e) => error_string(&e),
            },
            MessageType::StopStream => match parse_optional_stream_id_payload(payload) {
                Ok(id) => SessionStep::Call(SessionRequest::StopStream(id)),
                Err(e) => error_string(&e),
            },
            MessageType::ListStreams => SessionStep::Call(SessionRequest::ListStreams),
            MessageType::SetStreamConfig => match parse_set_stream_config_payload(payload) {
                Ok(c) => SessionStep::Call(SessionRequest::SetStreamConfig(c)),
                Err(e) => error_string(&e),
            },
            MessageType::ListDisplays => SessionStep::Call(SessionRequest::ListPhysicalDisplays),
            MessageType::AddVirtualDisplay => match parse_add_display_payload(payload) {
                Ok(d) => SessionStep::Call(SessionRequest::EnableVirtualDisplay(d)),
                Err(e) => error_string(&e),
            },
            _ => match parse_remove_display_payload(payload) {
                Ok(id) => SessionStep::Call(SessionRequest::CheckDisplayUnused(id)),
                Err(e) => error_string(&e),
            },
        }
    }

    /// Handles a frame from the client.
    pub fn handle_frame(&mut self, frame: Frame) -> (r: SessionStep)
        requires
            session_wf(old(self)@),
        ensures
            (final(self)@, r@) == on_frame(old(self)@, frame.message_type, frame.payload@),
            session_wf(final(self)@),
    {
        let payload = frame.payload.as_slice();
        match frame.message_type {
            MessageType::Hello => {
                if self.state == HandshakeState::AwaitHello {
                    self.state = HandshakeState::AwaitPairing;
                    reply_text(MessageType::HelloAck, "prlx-host", Some(DaemonState::Waiting))
                } else {
                    reply_text(MessageType::HelloAck, "prlx-host", None)
                }
            },
            MessageType::PairRequest => self.handle_pair_request(payload),
            MessageType::AuthResponse => self.handle_auth_response(payload),
            MessageType::Ping => reply_one(MessageType::Pong, Vec::new(), None),
            MessageType::StartStream | MessageType::StopStream | MessageType::ListStreams
            | MessageType::SetStreamConfig | MessageType::ListDisplays
            | MessageType::AddVirtualDisplay | MessageType::RemoveVirtualDisplay => {
                if self.state != HandshakeState::Paired {
                    error_str("pairing required")
                } else {
                    self.handle_paired_request(frame.message_type, payload)
                }
            },
            _ => error_str("Unexpected message"),
        }
    }

    /// Continues after the outside work that the session asked for.
    pub fn resume(&mut self, request: SessionRequest, outcome: SessionOutcome) -> (r: SessionStep)
        requires
            session_wf(old(self)@),
            outcome_fits(request@, outcome@),
        ensures
            (final(self)@, r@) == on_outcome(old(self)@, request@, outcome@),
            session_wf(final(self)@),
    {
        match (request, outcome) {
            (SessionRequest::SetTarget(_), SessionOutcome::Done(r)) => match r {
                Ok(()) => SessionStep::Call(SessionRequest::DrawNonce),
                Err(e) => error_string(&e),
            },
            (SessionRequest::DrawNonce, SessionOutcome::Nonce(n)) => {
                if self.nonce_used(&n) {
                    SessionStep::Call(SessionRequest::DrawNonce)
                } else {
                    self.pending_nonce = Some(n);
                    self.state = HandshakeState::AwaitAuth;
                    reply_one(MessageType::AuthChallenge, nonce_bytes(&n), None)
                }
            },
            (SessionRequest::StartStream(_), SessionOutcome::Done(r)) => match r {
                Ok(()) => reply_one(MessageType::StreamStarted, Vec::new(), Some(DaemonState::Streaming)),
                Err(e) => error_string(&e),
            },
            (SessionRequest::StopStream(_), SessionOutcome::Done(r)) => match r {
                Ok(()) => reply_one(MessageType::StreamStopped, Vec::new(), Some(DaemonState::Connected)),
                Err(e) => error_string(&e),
            },
            (SessionRequest::ListStreams, SessionOutcome::Streams(r)) => match r {
                Ok(t) => reply_one(MessageType::Streams, string_bytes(&t), None),
                Err(e) => error_string(&e),
            },
            (SessionRequest::SetStreamConfig(_), SessionOutcome::Done(r)) => match r {
                Ok(()) => reply_text(MessageType::StreamConfigAck, "stream config updated", None),
                Err(e) => error_string(&e),
            },
            (SessionRequest::ListPhysicalDisplays, SessionOutcome::Physical(r)) => match r {
                Ok(ps) => SessionStep::Call(SessionRequest::ListVirtualDisplays(ps)),
                Err(e) => error_string(&e),
            },
            (SessionRequest::ListVirtualDisplays(ps), SessionOutcome::Virtual(r)) => match r {
                Ok(vs) => {
                    let text = display::displays_payload(ps.as_slice(), vs.as_slice());
                    reply_one(MessageType::Displays, chars_utf8(&text), None)
                },
                Err(e) => error_string(&e),
            },
            (SessionRequest::EnableVirtualDisplay(_), SessionOutcome::Done(r)) => match r {
                Ok(()) => reply_text(MessageType::DisplayOpAck, "virtual display added", None),
                Err(e) => error_string(&e),
            },
            (SessionRequest::CheckDisplayUnused(id), SessionOutcome::Streams(r)) => match r {
                Ok(t) => {
                    if is_display_used_by_running_stream(t.as_str(), id.as_str()) {
                        error_str("display is in use by an active stream")
                    } else {
                        SessionStep::Call(SessionRequest::DisableVirtualDisplay(id))
                    }
                },
                Err(e) => error_string(&e),
            },
            (SessionRequest::DisableVirtualDisplay(_), SessionOutcome::Done(r)) => match r {
                Ok(()) => reply_text(MessageType::DisplayOpAck, "virtual display removed", None),
                Err(e) => error_string(&e),
            },
            _ => error_str("Unexpected message"),
        }
    }
}

fn nonce_bytes(n: &[u8; 32]) -> (out: Vec<u8>)
    ensures
        out@ == n@,
{
    let mut out: Vec<u8> = Vec::new();
    for i in 0..32
        invariant
            n@.len() == 32,
            out@ == n@.take(i as int),
    {
        out.push(n[i]);
        assert(n@.take(i + 1) == n@.take(i as int).push(n@[i as int]));
    }
    assert(n@.take(32) =~= n@);
    out
}

} // verus!
