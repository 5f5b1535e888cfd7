//! The daemon's status socket: the one-line commands it reads, the status line
//! it answers with, the QR code URI and the pairing PIN it shows, and where the
//! socket lives.
use vstd::prelude::*;

use crate::session::{DaemonState, DaemonStatus};
use crate::streams::{
    host_port, opt_seq, parse_port, start_result, stop_result, streams_payload, StreamConfig,
    StreamConfigView, StreamMetrics, StreamTable, MAX_STREAMS,
};
use crate::text;
use crate::text::{
    chars_eq_str, chars_of, ends_with_chars, parse_u32, push_chars, push_dec, push_str,
    slice_chars, starts_with_chars, string_of, trim,
};

verus! {

/// The word a state is written with on the status socket.
pub open spec fn state_word(s: DaemonState) -> Seq<char> {
    match s {
        DaemonState::Idle => "idle"@,
        DaemonState::Waiting => "waiting"@,
        DaemonState::Connected => "connected"@,
        DaemonState::Streaming => "streaming"@,
    }
}

/// `state=<state>[ pin=<pin>][ qr=<uri>]` and a line feed.
pub open spec fn status_text(state: DaemonState, pin: Option<Seq<char>>, qr: Option<Seq<char>>) -> Seq<
    char,
> {
    "state="@ + state_word(state) + (match pin {
        Some(p) => " pin="@ + p,
        None => Seq::empty(),
    }) + (match qr {
        Some(q) => " qr="@ + q,
        None => Seq::empty(),
    }) + "\n"@
}

fn push_state_word(out: &mut Vec<char>, s: DaemonState)
    ensures
        final(out)@ == old(out)@ + state_word(s),
{
    match s {
        DaemonState::Idle => push_str(out, "idle"),
        DaemonState::Waiting => push_str(out, "waiting"),
        DaemonState::Connected => push_str(out, "connected"),
        DaemonState::Streaming => push_str(out, "streaming"),
    }
}

/// The status line the daemon answers with.
pub fn status_line(status: &DaemonStatus) -> (out: String)
    ensures
        out@ == status_text(status.state, opt_seq(status.pin), opt_seq(status.qr_uri)),
{
    let mut cs: Vec<char> = Vec::new();
    push_str(&mut cs, "state=");
    push_state_word(&mut cs, status.state);
    let ghost head = cs@;
    match &status.pin {
        Some(p) => {
            push_str(&mut cs, " pin=");
            push_str(&mut cs, p.as_str());
        },
        None => {},
    }
    let ghost with_pin = cs@;
    match &status.qr_uri {
        Some(q) => {
            push_str(&mut cs, " qr=");
            push_str(&mut cs, q.as_str());
        },
        None => {},
    }
    let ghost with_qr = cs@;
    push_str(&mut cs, "\n");
    assert(with_pin =~= head + (match opt_seq(status.pin) {
        Some(p) => " pin="@ + p,
        None => Seq::empty(),
    }));
    assert(with_qr =~= with_pin + (match opt_seq(status.qr_uri) {
        Some(q) => " qr="@ + q,
        None => Seq::empty(),
    }));
    assert(cs@ =~= status_text(status.state, opt_seq(status.pin), opt_seq(status.qr_uri)));
    string_of(&cs)
}

/// A command read from the status socket.
#[derive(Debug, Clone, Copy, PartialEq, Eq, Structural)]
pub enum StatusCommand {
    Status,
    Start(u32),
    Stop(u32),
    Streams,
}

/// The stream a `start <id>` or `stop <id>` names; stream 1 where the id does not read.
pub open spec fn id_or_first(s: Seq<char>) -> u32 {
    match text::spec_parse_u32(s) {
        Some(n) => n as u32,
        None => 1,
    }
}

/// What a line read from the status socket asks for, once trimmed; anything
/// unknown asks for the status.
pub open spec fn status_command(line: Seq<char>) -> StatusCommand {
    let l = text::spec_trim(line);
    if l == "status"@ {
        StatusCommand::Status
    } else if l == "start"@ {
        StatusCommand::Start(1)
    } else if text::starts_with(l, "start "@) {
        StatusCommand::Start(id_or_first(l.skip(6)))
    } else if l == "stop"@ {
        StatusCommand::Stop(1)
    } else if text::starts_with(l, "stop "@) {
        StatusCommand::Stop(id_or_first(l.skip(5)))
    } else if l == "streams"@ {
        StatusCommand::Streams
    } else {
        StatusCommand::Status
    }
}

fn id_after(l: &Vec<char>, from: usize) -> (id: u32)
    requires
        from <= l@.len(),
    ensures
        id == id_or_first(l@.skip(from as int)),
{
    let rest = slice_chars(l, from, l.len());
    assert(rest@ =~= l@.skip(from as int));
    match parse_u32(&rest) {
        Some(n) => n,
        None => 1,
    }
}

/// Reads a command line of the status socket.
pub fn parse_status_command(line: &str) -> (c: StatusCommand)
    ensures
        c == status_command(line@),
{
    proof {
        reveal_strlit("start ");
        reveal_strlit("stop ");
    }
    let l = trim(&chars_of(line));
    if chars_eq_str(&l, "status") {
        StatusCommand::Status
    } else if chars_eq_str(&l, "start") {
        StatusCommand::Start(1)
    } else if starts_with_chars(&l, &chars_of("start ")) {
        StatusCommand::Start(id_after(&l, 6))
    } else if chars_eq_str(&l, "stop") {
        StatusCommand::Stop(1)
    } else if starts_with_chars(&l, &chars_of("stop ")) {
        StatusCommand::Stop(id_after(&l, 5))
    } else if chars_eq_str(&l, "streams") {
        StatusCommand::Streams
    } else {
        StatusCommand::Status
    }
}

/// The `Streams` payload as the status socket sends it: ending in a line feed.
pub open spec fn streams_reply_text(payload: Seq<char>) -> Seq<char> {
    if text::ends_with(payload, "\n"@) {
        payload
    } else {
        payload + "\n"@
    }
}

/// What the daemon does with a status socket command.
pub enum StatusStep {
    /// Send this line.
    Reply(String),
    /// Launch the pipeline of the stream with this configuration, then send the line.
    Launch(u32, StreamConfig, String),
    /// Wait for the pipeline of the stream to end, then call `finish_stop`.
    Join(u32),
}

/// The status after a stream command: it streams once a start succeeds.
pub open spec fn state_after_start(s: DaemonState, ok: bool) -> DaemonState {
    if ok {
        DaemonState::Streaming
    } else {
        s
    }
}

/// Answers a command of the status socket. `metrics` holds what the pipelines
/// measured, one entry per stream slot.
pub fn handle_status_command(
    status: &mut DaemonStatus,
    table: &mut StreamTable,
    metrics: &[StreamMetrics],
    line: &str,
) -> (step: StatusStep)
    requires
        old(table)@.len() == MAX_STREAMS,
        metrics@.len() == MAX_STREAMS,
    ensures
        final(table)@.len() == MAX_STREAMS,
        final(status).pin == old(status).pin,
        final(status).qr_uri == old(status).qr_uri,
        match status_command(line@) {
            StatusCommand::Status => {
                &&& final(table)@ == old(table)@
                &&& *final(status) == *old(status)
                &&& step matches StatusStep::Reply(r) && r@ == status_text(
                    old(status).state,
                    opt_seq(old(status).pin),
                    opt_seq(old(status).qr_uri),
                )
            },
            StatusCommand::Streams => {
                &&& final(table)@ == old(table)@
                &&& *final(status) == *old(status)
                &&& step matches StatusStep::Reply(r) && r@ == streams_reply_text(
                    streams_payload(old(table)@, metrics@),
                )
            },
            StatusCommand::Start(id) => {
                let (t, res) = start_result(old(table)@, id);
                &&& final(table)@ == t
                &&& final(status).state == state_after_start(old(status).state, res is Ok)
                &&& match step {
                    StatusStep::Reply(r) => !(res matches Ok(Some(_))) && r@ == status_text(
                        final(status).state,
                        opt_seq(old(status).pin),
                        opt_seq(old(status).qr_uri),
                    ),
                    StatusStep::Launch(sid, c, r) => sid == id && res == Ok::<
                        Option<StreamConfigView>,
                        Seq<char>,
                    >(Some(c@)) && r@ == status_text(
                        final(status).state,
                        opt_seq(old(status).pin),
                        opt_seq(old(status).qr_uri),
                    ),
                    StatusStep::Join(_) => false,
                }
            },
            StatusCommand::Stop(id) => {
                let (t, res) = stop_result(old(table)@, id);
                &&& final(table)@ == t
                &&& match step {
                    StatusStep::Join(sid) => sid == id && res is Ok && *final(status)
                        == *old(status),
                    StatusStep::Reply(r) => res is Err && *final(status) == *old(status) && r@
                        == status_text(
                        old(status).state,
                        opt_seq(old(status).pin),
                        opt_seq(old(status).qr_uri),
                    ),
                    StatusStep::Launch(..) => false,
                }
            },
        },
{
    match parse_status_command(line) {
        StatusCommand::Status => StatusStep::Reply(status_line(status)),
        StatusCommand::Streams => {
            let payload = table.list_streams(metrics);
            let cs = chars_of(payload.as_str());
            if ends_with_chars(&cs, &chars_of("\n")) {
                StatusStep::Reply(payload)
            } else {
                let mut out = cs;
                push_str(&mut out, "\n");
                StatusStep::Reply(string_of(&out))
            }
        },
        StatusCommand::Start(id) => {
            let r = table.start_stream(id);
            match r {
                Ok(launch) => {
                    status.state = DaemonState::Streaming;
                    let line = status_line(status);
                    match launch {
                        Some(c) => StatusStep::Launch(id, c, line),
                        None => StatusStep::Reply(line),
                    }
                },
                Err(_) => StatusStep::Reply(status_line(status)),
            }
        },
        StatusCommand::Stop(id) => {
            match table.stop_stream(id) {
                Ok(()) => StatusStep::Join(id),
                Err(_) => StatusStep::Reply(status_line(status)),
            }
        },
    }
}

/// After the pipeline of a stopped stream ended: the daemon is back to
/// `connected` where it ended cleanly; gives the status line to send.
pub fn finish_stop(status: &mut DaemonStatus, joined: bool) -> (out: String)
    ensures
        final(status).state == (if joined {
            DaemonState::Connected
        } else {
            old(status).state
        }),
        final(status).pin == old(status).pin,
        final(status).qr_uri == old(status).qr_uri,
        out@ == status_text(final(status).state, opt_seq(old(status).pin), opt_seq(old(status).qr_uri)),
{
    if joined {
        status.state = DaemonState::Connected;
    }
    status_line(status)
}

// ---------------------------------------------------------------------------
// The QR code URI and the PIN
// ---------------------------------------------------------------------------
/// `prlx://<ip>:<port>`, then `?` and the query parts joined by `&`:
/// `streamPort=<port of the stream target>` and `pin=<token>`, each where known.
pub open spec fn qr_text(local_ip: Seq<char>, port: u16, target_addr: Seq<char>, token: Seq<char>) -> Seq<
    char,
> {
    let base = "prlx://"@ + local_ip + ":"@ + text::dec(port as nat);
    let pin_part = "pin="@ + token;
    match host_port(target_addr) {
        Some((_, p)) => {
            let port_part = "streamPort="@ + text::dec(p as nat);
            if token.len() > 0 {
                base + "?"@ + port_part + "&"@ + pin_part
            } else {
                base + "?"@ + port_part
            }
        },
        None => if token.len() > 0 {
            base + "?"@ + pin_part
        } else {
            base
        },
    }
}

/// The URI the QR code carries.
pub fn build_qr_uri(local_ip: &str, port: u16, target_addr: &str, token: &str) -> (out: String)
    ensures
        out@ == qr_text(local_ip@, port, target_addr@, token@),
{
    let mut cs: Vec<char> = Vec::new();
    push_str(&mut cs, "prlx://");
    push_str(&mut cs, local_ip);
    push_str(&mut cs, ":");
    push_dec(&mut cs, port as u64);
    let ghost base = cs@;
    let has_pin = chars_of(token).len() > 0;
    match parse_port(target_addr) {
        Some(p) => {
            push_str(&mut cs, "?streamPort=");
            push_dec(&mut cs, p as u64);
            if has_pin {
                push_str(&mut cs, "&pin=");
                push_str(&mut cs, token);
            }
        },
        None => {
            if has_pin {
                push_str(&mut cs, "?pin=");
                push_str(&mut cs, token);
            }
        },
    }
    proof {
        reveal_strlit("?streamPort=");
        reveal_strlit("&pin=");
        reveal_strlit("?pin=");
        reveal_strlit("?");
        reveal_strlit("&");
        reveal_strlit("pin=");
        reveal_strlit("streamPort=");
    }
    assert(cs@ =~= qr_text(local_ip@, port, target_addr@, token@));
    string_of(&cs)
}

/// A pairing PIN of six digits, drawn by `rand::Rng::gen_range` over
/// `100_000..=999_999` from `rand::thread_rng()`. Stated: the PIN lies in that
/// range, as `gen_range` documents; which one it is rests on chance. The
/// thread's generator panics only where the operating system cannot seed it.
#[verifier::external_body]
fn random_pin() -> (pin: u32)
    ensures
        100_000 <= pin <= 999_999,
{
    let mut rng = rand::thread_rng();
    rand::Rng::gen_range(&mut rng, 100_000..=999_999)
}

/// The pairing token: the configured one, or a random six-digit PIN where it is `auto`.
pub fn resolve_pairing_token(value: &str) -> (out: String)
    ensures
        value@ != "auto"@ ==> out@ == value@,
        value@ == "auto"@ ==> exists|pin: nat|
            100_000 <= pin <= 999_999 && out@ == #[trigger] text::dec(pin),
{
    if !text::str_eq(value, "auto") {
        return String::from_str(value);
    }
    let pin = random_pin();
    let mut cs: Vec<char> = Vec::new();
    push_dec(&mut cs, pin as u64);
    assert(cs@ == text::dec(pin as nat));
    string_of(&cs)
}

// ---------------------------------------------------------------------------
// The socket path
// ---------------------------------------------------------------------------
pub const DEFAULT_SOCKET_PATH: &'static str = "~/.local/share/prlx/prlx.sock";

pub const SOCKET_ENV_VAR: &'static str = "PRLX_SOCKET_PATH";

/// `Path::join`: an absolute `rest` replaces `base`; otherwise a `/` goes
/// between them unless `base` is empty or ends in one.
pub open spec fn join_path(base: Seq<char>, rest: Seq<char>) -> Seq<char> {
    if rest.len() > 0 && rest[0] == '/' {
        rest
    } else if base.len() == 0 || base.last() == '/' {
        base + rest
    } else {
        base + "/"@ + rest
    }
}

fn join_path_exec(base: &str, rest: &Vec<char>) -> (out: String)
    ensures
        out@ == join_path(base@, rest@),
{
    if rest.len() > 0 && rest[0] == '/' {
        return string_of(rest);
    }
    let b = chars_of(base);
    let mut cs = chars_of(base);
    if b.len() > 0 && b[b.len() - 1] != '/' {
        push_str(&mut cs, "/");
    }
    push_chars(&mut cs, rest);
    proof {
        reveal_strlit("/");
    }
    string_of(&cs)
}

/// Where a socket path that starts with `~/` lies: under the home directory,
/// else under `/tmp`; any other path as it is.
pub open spec fn expanded_path(path: Seq<char>, home: Option<Seq<char>>) -> Seq<char> {
    if text::starts_with(path, "~/"@) {
        match home {
            Some(h) => join_path(h, path.skip(2)),
            None => join_path("/tmp"@, path.skip(2)),
        }
    } else {
        path
    }
}

/// Expands `~/` in a socket path, given the home directory where one is known.
pub fn expand_socket_path(path: &str, home: Option<&str>) -> (out: String)
    ensures
        out@ == expanded_path(
            path@,
            match home {
                Some(h) => Some(h@),
                None => None,
            },
        ),
{
    proof {
        reveal_strlit("~/");
    }
    let cs = chars_of(path);
    if !starts_with_chars(&cs, &chars_of("~/")) {
        return String::from_str(path);
    }
    let rest = slice_chars(&cs, 2, cs.len());
    assert(rest@ =~= path@.skip(2));
    match home {
        Some(h) => join_path_exec(h, &rest),
        None => join_path_exec("/tmp", &rest),
    }
}

} // verus!
