//! What the host UI reads from the daemon's status socket: the status line
//! parsed back into a state, a PIN and a QR code URI, and the labels it shows.
use vstd::prelude::*;

use crate::session::DaemonState;
use crate::status::{state_word, status_text};
use crate::text;
use crate::text::{chars_eq_str, chars_of, push_str, split_once, split_whitespace, string_of};

verus! {

/// The daemon state as the UI shows it.
#[derive(Debug, Clone, Copy, PartialEq, Eq, Structural)]
pub enum UiState {
    Idle,
    Waiting,
    Connected,
    Streaming,
}

pub open spec fn ui_label(s: UiState) -> Seq<char> {
    match s {
        UiState::Idle => "Idle"@,
        UiState::Waiting => "Waiting"@,
        UiState::Connected => "Connected"@,
        UiState::Streaming => "Streaming"@,
    }
}

impl UiState {
    /// The state's label.
    pub fn label(self) -> (s: &'static str)
        ensures
            s@ == ui_label(self),
    {
        match self {
            UiState::Idle => "Idle",
            UiState::Waiting => "Waiting",
            UiState::Connected => "Connected",
            UiState::Streaming => "Streaming",
        }
    }
}

/// The label of the connection to the daemon.
pub open spec fn daemon_label_text(connected: bool) -> Seq<char> {
    if connected {
        "Connected"@
    } else {
        "Connecting…"@
    }
}

/// The label of the connection to the daemon.
pub fn daemon_label(connected: bool) -> (s: &'static str)
    ensures
        s@ == daemon_label_text(connected),
{
    if connected {
        "Connected"
    } else {
        "Connecting…"
    }
}

/// The daemon's status as the UI holds it.
#[derive(Debug, Clone)]
pub struct DaemonStatus {
    pub state: UiState,
    pub connected: bool,
    pub pin: Option<String>,
    pub qr_uri: Option<String>,
}

pub struct UiStatusView {
    pub state: UiState,
    pub connected: bool,
    pub pin: Option<Seq<char>>,
    pub qr_uri: Option<Seq<char>>,
}

impl View for DaemonStatus {
    type V = UiStatusView;

    open spec fn view(&self) -> UiStatusView {
        UiStatusView {
            state: self.state,
            connected: self.connected,
            pin: match self.pin {
                Some(p) => Some(p@),
                None => None,
            },
            qr_uri: match self.qr_uri {
                Some(q) => Some(q@),
                None => None,
            },
        }
    }
}

/// Idle, not connected, no PIN and no URI.
pub open spec fn initial_status() -> UiStatusView {
    UiStatusView { state: UiState::Idle, connected: false, pin: None, qr_uri: None }
}

impl Default for DaemonStatus {
    fn default() -> (s: Self)
        ensures
            s@ == initial_status(),
    {
        DaemonStatus { state: UiState::Idle, connected: false, pin: None, qr_uri: None }
    }
}

/// The state a `state=` value names, if it names one.
pub open spec fn state_named(v: Seq<char>) -> Option<UiState> {
    if v == "idle"@ {
        Some(UiState::Idle)
    } else if v == "waiting"@ {
        Some(UiState::Waiting)
    } else if v == "connected"@ {
        Some(UiState::Connected)
    } else if v == "streaming"@ {
        Some(UiState::Streaming)
    } else {
        None
    }
}

/// What one `key=value` word of a status line sets, and whether it is one of
/// the keys `state`, `pin` and `qr`.
pub open spec fn apply_word(st: UiStatusView, word: Seq<char>) -> (UiStatusView, bool) {
    match text::spec_split_once(word, '=') {
        None => (st, false),
        Some((k, v)) => if k == "state"@ {
            (
                UiStatusView {
                    state: match state_named(v) {
                        Some(s) => s,
                        None => st.state,
                    },
                    ..st
                },
                true,
            )
        } else if k == "pin"@ {
            (UiStatusView { pin: Some(v), ..st }, true)
        } else if k == "qr"@ {
            (UiStatusView { qr_uri: Some(v), ..st }, true)
        } else {
            (st, false)
        },
    }
}

/// The status the words of a line set, from the initial one, and whether any key was known.
pub open spec fn apply_words(ws: Seq<Seq<char>>) -> (UiStatusView, bool)
    decreases ws.len(),
{
    if ws.len() == 0 {
        (initial_status(), false)
    } else {
        let (st, saw) = apply_words(ws.drop_last());
        let (st2, saw2) = apply_word(st, ws.last());
        (st2, saw || saw2)
    }
}

/// The status a line gives, where it names any of `state`, `pin` or `qr`.
pub open spec fn parsed_status(line: Seq<char>) -> Option<UiStatusView> {
    let (st, saw) = apply_words(text::words(line));
    if saw {
        Some(st)
    } else {
        None
    }
}

fn apply_word_exec(status: &mut DaemonStatus, word: &Vec<char>) -> (saw: bool)
    ensures
        (final(status)@, saw) == apply_word(old(status)@, word@),
{
    let (k, v) = match split_once(word, '=') {
        Some(p) => p,
        None => return false,
    };
    if chars_eq_str(&k, "state") {
        if chars_eq_str(&v, "idle") {
            status.state = UiState::Idle;
        } else if chars_eq_str(&v, "waiting") {
            status.state = UiState::Waiting;
        } else if chars_eq_str(&v, "connected") {
            status.state = UiState::Connected;
        } else if chars_eq_str(&v, "streaming") {
            status.state = UiState::Streaming;
        }
        true
    } else if chars_eq_str(&k, "pin") {
        status.pin = Some(string_of(&v));
        true
    } else if chars_eq_str(&k, "qr") {
        status.qr_uri = Some(string_of(&v));
        true
    } else {
        false
    }
}

/// Reads a status line of the daemon: `None` where it names none of `state`,
/// `pin` and `qr`.
pub fn parse_status(line: &str) -> (r: Option<DaemonStatus>)
    ensures
        match r {
            Some(s) => parsed_status(line@) == Some(s@),
            None => parsed_status(line@) is None,
        },
{
    let mut status = DaemonStatus::default();
    let mut saw_any = false;
    let ws = split_whitespace(&chars_of(line));
    let ghost all = text::words(line@);
    let mut i: usize = 0;
    while i < ws.len()
        invariant
            text::views(ws@) == all,
            i <= ws@.len(),
            (status@, saw_any) == apply_words(all.take(i as int)),
        decreases ws@.len() - i,
    {
        assert(all.take(i + 1).drop_last() =~= all.take(i as int));
        assert(all.take(i + 1).last() == ws@[i as int]@);
        let saw = apply_word_exec(&mut status, &ws[i]);
        saw_any = saw_any || saw;
        i = i + 1;
    }
    assert(all.take(ws@.len() as int) =~= all);
    if saw_any {
        Some(status)
    } else {
        None
    }
}

// ---------------------------------------------------------------------------
// The UI's client of the status socket
// ---------------------------------------------------------------------------
/// What the UI asks of the daemon.
#[derive(Debug, Clone, Copy, PartialEq, Eq, Structural)]
pub enum DaemonCommand {
    Refresh,
    StartStream,
    StopStream,
    Shutdown,
}

/// What the UI's client reports.
#[derive(Debug)]
pub enum DaemonEvent {
    Status(DaemonStatus),
    Error(String),
    Warning(String),
}

/// The line a command sends.
pub open spec fn command_text(c: DaemonCommand) -> Seq<char> {
    match c {
        DaemonCommand::Refresh => "status"@,
        DaemonCommand::StartStream => "start"@,
        DaemonCommand::StopStream | DaemonCommand::Shutdown => "stop"@,
    }
}

/// The name of a command in the client's messages.
pub open spec fn action_text(c: DaemonCommand) -> Seq<char> {
    match c {
        DaemonCommand::Refresh => "refresh"@,
        DaemonCommand::StartStream => "start"@,
        DaemonCommand::StopStream => "stop"@,
        DaemonCommand::Shutdown => "shutdown"@,
    }
}

/// The line a command sends to the status socket, and its name in messages.
pub fn command_line(c: DaemonCommand) -> (r: (&'static str, &'static str))
    ensures
        r.0@ == command_text(c),
        r.1@ == action_text(c),
{
    match c {
        DaemonCommand::Refresh => ("status", "refresh"),
        DaemonCommand::StartStream => ("start", "start"),
        DaemonCommand::StopStream => ("stop", "stop"),
        DaemonCommand::Shutdown => ("stop", "shutdown"),
    }
}

/// What the client does with a command: send its line when connected, else
/// keep a refresh or a start for when it connects; a stop or a shutdown also
/// ends the daemon the client started.
pub struct CommandPlan {
    pub send: bool,
    pub keep_pending: bool,
    pub end_child: bool,
}

pub open spec fn keeps_for_later(c: DaemonCommand) -> bool {
    c == DaemonCommand::Refresh || c == DaemonCommand::StartStream
}

pub fn plan_command(c: DaemonCommand, connected: bool) -> (p: CommandPlan)
    ensures
        p.send == connected,
        p.keep_pending == (!connected && keeps_for_later(c)),
        p.end_child == !keeps_for_later(c),
{
    match c {
        DaemonCommand::Refresh | DaemonCommand::StartStream => CommandPlan {
            send: connected,
            keep_pending: !connected,
            end_child: false,
        },
        DaemonCommand::StopStream | DaemonCommand::Shutdown => CommandPlan {
            send: connected,
            keep_pending: false,
            end_child: true,
        },
    }
}

/// `Daemon not connected; cannot <action>`.
pub fn not_connected_message(c: DaemonCommand) -> (m: String)
    ensures
        m@ == "Daemon not connected; cannot "@ + action_text(c),
{
    let mut cs: Vec<char> = Vec::new();
    push_str(&mut cs, "Daemon not connected; cannot ");
    push_str(&mut cs, command_line(c).1);
    string_of(&cs)
}

/// `Failed to send <action> command`.
pub fn send_failed_message(c: DaemonCommand) -> (m: String)
    ensures
        m@ == "Failed to send "@ + action_text(c) + " command"@,
{
    let mut cs: Vec<char> = Vec::new();
    push_str(&mut cs, "Failed to send ");
    push_str(&mut cs, command_line(c).1);
    push_str(&mut cs, " command");
    string_of(&cs)
}

/// What a line from the daemon reports, its trailing white space dropped:
/// nothing for a blank line, the status (the socket being connected) where it
/// reads as one, else a warning with the line.
pub open spec fn response_meaning(line: Seq<char>) -> Option<Result<UiStatusView, Seq<char>>> {
    let raw = text::trim_end(line);
    if raw.len() == 0 {
        None
    } else {
        match parsed_status(raw) {
            Some(st) => Some(Ok(UiStatusView { connected: true, ..st })),
            None => Some(Err(raw)),
        }
    }
}

fn trim_end_chars(s: &[char]) -> (out: Vec<char>)
    ensures
        out@ == text::trim_end(s@),
{
    let mut j: usize = s.len();
    assert(s@.take(j as int) =~= s@);
    while j > 0 && text::is_whitespace(s[j - 1])
        invariant
            j <= s@.len(),
            text::trim_end(s@) == text::trim_end(s@.take(j as int)),
        decreases j,
    {
        assert(s@.take(j as int).drop_last() =~= s@.take(j - 1));
        assert(s@.take(j as int).last() == s@[j - 1]);
        j = j - 1;
    }
    let out = text::slice_chars(s, 0, j);
    assert(out@ =~= s@.take(j as int));
    out
}

/// Reads a line from the daemon into what it reports.
pub fn response_event(line: &str) -> (e: Option<DaemonEvent>)
    ensures
        match response_meaning(line@) {
            None => e is None,
            Some(Ok(st)) => e matches Some(DaemonEvent::Status(s)) && s@ == st,
            Some(Err(w)) => e matches Some(DaemonEvent::Warning(m)) && m@ == w,
        },
{
    let cs = chars_of(line);
    assert(cs@.take(cs@.len() as int) =~= cs@);
    let raw = trim_end_chars(&cs);
    if raw.len() == 0 {
        return None;
    }
    let text_raw = string_of(&raw);
    match parse_status(text_raw.as_str()) {
        Some(mut status) => {
            status.connected = true;
            Some(DaemonEvent::Status(status))
        },
        None => Some(DaemonEvent::Warning(text_raw)),
    }
}

/// What the UI shows of the daemon: its status, and the last error and
/// warning that its client reported.
pub struct DaemonPanel {
    pub status: DaemonStatus,
    pub last_error: Option<String>,
    pub last_warning: Option<String>,
}

pub struct PanelView {
    pub status: UiStatusView,
    pub last_error: Option<Seq<char>>,
    pub last_warning: Option<Seq<char>>,
}

impl View for DaemonPanel {
    type V = PanelView;

    open spec fn view(&self) -> PanelView {
        PanelView {
            status: self.status@,
            last_error: match self.last_error {
                Some(e) => Some(e@),
                None => None,
            },
            last_warning: match self.last_warning {
                Some(w) => Some(w@),
                None => None,
            },
        }
    }
}

/// What an event does to the panel: a status replaces the status and clears
/// the warning, and the error too once the daemon is connected; an error or a
/// warning is kept as the last one.
pub open spec fn panel_after(p: PanelView, e: DaemonEvent) -> PanelView {
    match e {
        DaemonEvent::Status(st) => PanelView {
            status: st@,
            last_error: if st.connected {
                None
            } else {
                p.last_error
            },
            last_warning: None,
        },
        DaemonEvent::Error(m) => PanelView { last_error: Some(m@), ..p },
        DaemonEvent::Warning(m) => PanelView { last_warning: Some(m@), ..p },
    }
}

/// The session chip: `Connecting…` until the daemon answers, then the state,
/// with Idle and Connected shown as `Ready`.
pub open spec fn chip_text(st: UiStatusView) -> Seq<char> {
    if !st.connected {
        "Connecting…"@
    } else {
        match st.state {
            UiState::Streaming => "Streaming"@,
            UiState::Waiting => "Waiting"@,
            _ => "Ready"@,
        }
    }
}

impl DaemonPanel {
    /// The panel before any event: the initial status, no error, no warning.
    pub fn new() -> (p: Self)
        ensures
            p@ == (PanelView { status: initial_status(), last_error: None, last_warning: None }),
    {
        DaemonPanel { status: DaemonStatus::default(), last_error: None, last_warning: None }
    }

    /// Takes in an event of the daemon's client.
    /// Start is offered unless the daemon is streaming.
    pub fn can_start(&self) -> (r: bool)
        ensures
            r == (self@.status.state != UiState::Streaming),
    {
        self.status.state != UiState::Streaming
    }

    /// Stop is offered only while the daemon is streaming.
    pub fn can_stop(&self) -> (r: bool)
        ensures
            r == (self@.status.state == UiState::Streaming),
    {
        self.status.state == UiState::Streaming
    }

    /// The label of the session chip.
    pub fn chip_label(&self) -> (s: &'static str)
        ensures
            s@ == chip_text(self@.status),
    {
        if !self.status.connected {
            "Connecting…"
        } else {
            match self.status.state {
                UiState::Streaming => "Streaming",
                UiState::Waiting => "Waiting",
                _ => "Ready",
            }
        }
    }

    pub fn apply_event(&mut self, event: DaemonEvent)
        ensures
            final(self)@ == panel_after(old(self)@, event),
    {
        match event {
            DaemonEvent::Status(status) => {
                if status.connected {
                    self.last_error = None;
                }
                self.status = status;
                self.last_warning = None;
            },
            DaemonEvent::Error(err) => {
                self.last_error = Some(err);
            },
            DaemonEvent::Warning(warning) => {
                self.last_warning = Some(warning);
            },
        }
    }
}

// ---------------------------------------------------------------------------
// What the UI reads of what the daemon writes
// ---------------------------------------------------------------------------
/// The UI state of a daemon state.
pub open spec fn ui_state_of(s: DaemonState) -> UiState {
    match s {
        DaemonState::Idle => UiState::Idle,
        DaemonState::Waiting => UiState::Waiting,
        DaemonState::Connected => UiState::Connected,
        DaemonState::Streaming => UiState::Streaming,
    }
}

pub open spec fn no_ws(s: Seq<char>) -> bool {
    forall|i: int| 0 <= i < s.len() ==> !text::is_ws(#[trigger] s[i])
}

proof fn lemma_key_word(key: Seq<char>, v: Seq<char>)
    requires
        key.len() > 0,
        no_ws(key),
        no_ws(v),
        forall|i: int| 0 <= i < key.len() ==> #[trigger] key[i] != '=',
    ensures
        text::words(key + "="@ + v) == seq![key + "="@ + v],
        text::spec_split_once(key + "="@ + v, '=') == Some((key, v)),
{
    reveal_strlit("=");
    let w = key + "="@ + v;
    assert forall|i: int| 0 <= i < w.len() implies !text::is_ws(#[trigger] w[i]) by {
        if i < key.len() {
            assert(w[i] == key[i]);
        } else if i > key.len() {
            assert(w[i] == v[i - key.len() - 1]);
        } else {
            assert(w[i] == '=');
        }
    }
    text::lemma_words_word(w);
    assert forall|k: int| 0 <= k < key.len() implies w[k] != '=' by {
        assert(w[k] == key[k]);
    }
    text::lemma_split_once_at(w, '=', key.len() as int);
    assert(w.take(key.len() as int) =~= key);
    assert(w.skip(key.len() as int + 1) =~= v);
}

/// One more `pin=` or `qr=` word after a status line's words sets that field.
proof fn lemma_append_key_word(
    line: Seq<char>,
    ws: Seq<Seq<char>>,
    st: UiStatusView,
    key: Seq<char>,
    v: Seq<char>,
)
    requires
        text::words(line) == ws,
        apply_words(ws) == (st, true),
        key == "pin"@ || key == "qr"@,
        no_ws(v),
    ensures
        text::words(line.push(' ') + (key + "="@ + v)) == ws + seq![key + "="@ + v],
        apply_words(ws + seq![key + "="@ + v]) == (if key == "pin"@ {
            UiStatusView { pin: Some(v), ..st }
        } else {
            UiStatusView { qr_uri: Some(v), ..st }
        }, true),
{
    reveal_strlit("pin");
    reveal_strlit("qr");
    reveal_strlit("state");
    reveal_strlit("=");
    assert forall|i: int| 0 <= i < key.len() implies #[trigger] key[i] != '=' by {}
    assert(no_ws(key));
    let b = key + "="@ + v;
    lemma_key_word(key, v);
    text::lemma_words_sep(line, ' ', b);
    assert((ws + seq![b]).drop_last() =~= ws);
    assert((ws + seq![b]).last() == b);
}

/// A status line the daemon writes reads back in the UI as the same state,
/// PIN and URI, with its line feed and without it (as the UI reads it), where
/// the PIN and the URI hold no white space.
pub proof fn lemma_status_line_read_back(
    state: DaemonState,
    pin: Option<Seq<char>>,
    qr: Option<Seq<char>>,
)
    requires
        pin matches Some(p) ==> no_ws(p),
        qr matches Some(q) ==> no_ws(q),
    ensures
        parsed_status(status_text(state, pin, qr)) == Some(
            UiStatusView { state: ui_state_of(state), connected: false, pin, qr_uri: qr },
        ),
        parsed_status(status_text(state, pin, qr).drop_last()) == Some(
            UiStatusView { state: ui_state_of(state), connected: false, pin, qr_uri: qr },
        ),
{
    reveal_strlit("state=");
    reveal_strlit(" pin=");
    reveal_strlit(" qr=");
    reveal_strlit("pin");
    reveal_strlit("qr");
    reveal_strlit("state");
    reveal_strlit("\n");
    reveal_strlit("=");
    reveal_strlit("idle");
    reveal_strlit("waiting");
    reveal_strlit("connected");
    reveal_strlit("streaming");
    let w = state_word(state);
    assert(no_ws(w));
    assert forall|i: int| 0 <= i < "state"@.len() implies #[trigger] "state"@[i] != '=' by {}
    assert forall|i: int| 0 <= i < "pin"@.len() implies #[trigger] "pin"@[i] != '=' by {}
    assert forall|i: int| 0 <= i < "qr"@.len() implies #[trigger] "qr"@[i] != '=' by {}
    assert(no_ws("state"@));
    assert(no_ws("pin"@));
    assert(no_ws("qr"@));
    let a = "state"@ + "="@ + w;
    lemma_key_word("state"@, w);
    assert("state="@ + w =~= a);
    let s0 = initial_status();
    let s1 = UiStatusView { state: ui_state_of(state), ..s0 };
    assert(apply_word(s0, a) == (s1, true));
    assert(apply_words(seq![a]) == (s1, true)) by {
        assert(seq![a].drop_last() =~= Seq::<Seq<char>>::empty());
        assert(apply_words(Seq::<Seq<char>>::empty()) == (s0, false));
        assert(seq![a].last() == a);
    }
    // the words so far, and the status they give
    let ghost mut line = a;
    let ghost mut ws = seq![a];
    let ghost mut st = s1;
    assert(text::words(line) == ws);
    match pin {
        Some(p) => {
            let b = "pin"@ + "="@ + p;
            let st2 = UiStatusView { pin: Some(p), ..st };
            lemma_append_key_word(line, ws, st, "pin"@, p);
            assert(line.push(' ') + b =~= line + " pin="@ + p);
            line = line.push(' ') + b;
            ws = ws + seq![b];
            st = st2;
        },
        None => {},
    }
    assert(text::words(line) == ws);
    assert(apply_words(ws) == (st, true));
    match qr {
        Some(q) => {
            let c = "qr"@ + "="@ + q;
            let st2 = UiStatusView { qr_uri: Some(q), ..st };
            lemma_append_key_word(line, ws, st, "qr"@, q);
            assert(line.push(' ') + c =~= line + " qr="@ + q);
            line = line.push(' ') + c;
            ws = ws + seq![c];
            st = st2;
        },
        None => {},
    }
    text::lemma_words_sep(line, '\n', Seq::empty());
    assert(text::words(Seq::<char>::empty()) =~= Seq::<Seq<char>>::empty()) by {
        let e = Seq::<char>::empty();
        assert(text::ws_pieces(e) == seq![e]);
        assert(seq![e].drop_last() =~= Seq::<Seq<char>>::empty());
        assert(text::nonempty(seq![e]) == text::nonempty(Seq::<Seq<char>>::empty()));
    }
    assert(line.push('\n') + Seq::<char>::empty() =~= status_text(state, pin, qr));
    assert(status_text(state, pin, qr).drop_last() =~= line);
    assert(ws + Seq::<Seq<char>>::empty() =~= ws);
    assert(st == UiStatusView { state: ui_state_of(state), connected: false, pin, qr_uri: qr });
}

/// A word of a status line whose key is one the UI knows: `state`, `pin` or `qr`.
pub open spec fn names_known_key(word: Seq<char>) -> bool {
    match text::spec_split_once(word, '=') {
        Some((k, _)) => k == "state"@ || k == "pin"@ || k == "qr"@,
        None => false,
    }
}

proof fn lemma_apply_words_saw(ws: Seq<Seq<char>>)
    ensures
        apply_words(ws).1 <==> exists|i: int| 0 <= i < ws.len() && #[trigger] names_known_key(ws[i]),
    decreases ws.len(),
{
    if ws.len() > 0 {
        let init = ws.drop_last();
        lemma_apply_words_saw(init);
        let st = apply_words(init).0;
        assert(apply_word(st, ws.last()).1 == names_known_key(ws.last()));
        if exists|i: int| 0 <= i < init.len() && #[trigger] names_known_key(init[i]) {
            let i = choose|i: int| 0 <= i < init.len() && #[trigger] names_known_key(init[i]);
            assert(ws[i] == init[i]);
        }
        if exists|i: int| 0 <= i < ws.len() && #[trigger] names_known_key(ws[i]) {
            let i = choose|i: int| 0 <= i < ws.len() && #[trigger] names_known_key(ws[i]);
            if i < ws.len() - 1 {
                assert(init[i] == ws[i]);
            } else {
                assert(ws[i] == ws.last());
            }
        }
    }
}

/// A line reads as no status exactly when none of its words has the key
/// `state`, `pin` or `qr`.
pub proof fn lemma_status_none_iff_no_known_key(line: Seq<char>)
    ensures
        parsed_status(line) is None <==> !exists|i: int|
            0 <= i < text::words(line).len() && #[trigger] names_known_key(text::words(line)[i]),
{
    lemma_apply_words_saw(text::words(line));
}

} // verus!
