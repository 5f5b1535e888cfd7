//! The stream table of the control server: three stream slots, their
//! addresses derived from one base configuration, the target each one sends to,
//! and the stream list that clients and the status socket read.
use vstd::prelude::*;

use std::collections::BTreeMap;

use crate::payloads;
use crate::text;
use crate::text::{
    chars_of, ends_with_chars, parse_u16, push_chars, push_dec, push_str, rsplit_once, string_of,
    trim,
};

verus! {

pub const MAX_STREAMS: u32 = 3;

/// Where a stream captures, binds and sends, and which encoder it prefers.
#[derive(Debug, Clone)]
pub struct StreamConfig {
    pub display: String,
    pub bind_addr: String,
    pub target_addr: String,
    pub prefer_vaapi: bool,
}

/// The control server's settings.
#[derive(Debug, Clone)]
pub struct ControlConfig {
    pub control_bind: String,
    pub pairing_token: String,
    pub stream: StreamConfig,
}

pub struct StreamConfigView {
    pub display: Seq<char>,
    pub bind_addr: Seq<char>,
    pub target_addr: Seq<char>,
    pub prefer_vaapi: bool,
}

impl View for StreamConfig {
    type V = StreamConfigView;

    open spec fn view(&self) -> StreamConfigView {
        StreamConfigView {
            display: self.display@,
            bind_addr: self.bind_addr@,
            target_addr: self.target_addr@,
            prefer_vaapi: self.prefer_vaapi,
        }
    }
}

// ---------------------------------------------------------------------------
// Addresses
// ---------------------------------------------------------------------------
/// `host:port`, split at the last colon, where the port reads as a `u16`.
pub open spec fn host_port(addr: Seq<char>) -> Option<(Seq<char>, u16)> {
    match text::spec_rsplit_once(addr, ':') {
        None => None,
        Some((h, p)) => match text::spec_parse_u16(p) {
            Some(n) => Some((h, n as u16)),
            None => None,
        },
    }
}

/// Splits `host:port` at the last colon.
pub fn split_host_port(addr: &str) -> (r: Option<(String, u16)>)
    ensures
        match r {
            Some((h, p)) => host_port(addr@) == Some((h@, p)),
            None => host_port(addr@) is None,
        },
{
    let cs = chars_of(addr);
    let (host, port_str) = match rsplit_once(&cs, ':') {
        Some(p) => p,
        None => return None,
    };
    match parse_u16(&port_str) {
        Some(port) => Some((string_of(&host), port)),
        None => None,
    }
}

/// The port of an address, if it has one.
pub fn parse_port(addr: &str) -> (r: Option<u16>)
    ensures
        r == match host_port(addr@) {
            Some((_, p)) => Some(p),
            None => None::<u16>,
        },
{
    match split_host_port(addr) {
        Some((_, p)) => Some(p),
        None => None,
    }
}

/// The address with its port moved up by `delta` (taken modulo 65536); the
/// address unchanged where `delta` is 0, there is no port, or the sum passes 65535.
pub open spec fn offset_port_text(addr: Seq<char>, delta: u32) -> Seq<char> {
    if delta == 0 {
        addr
    } else {
        match host_port(addr) {
            None => addr,
            Some((h, p)) => {
                let d = delta % 0x1_0000;
                if p + d > 0xffff {
                    addr
                } else {
                    h + ":"@ + text::dec((p + d) as nat)
                }
            },
        }
    }
}

/// The address of stream `delta + 1` for a base address.
pub fn offset_port(addr: &str, delta: u32) -> (out: String)
    ensures
        out@ == offset_port_text(addr@, delta),
{
    if delta == 0 {
        return String::from_str(addr);
    }
    let (host, port) = match split_host_port(addr) {
        Some(p) => p,
        None => return String::from_str(addr),
    };
    let d = (delta % 0x1_0000) as u16;
    match port.checked_add(d) {
        None => String::from_str(addr),
        Some(offset) => {
            let mut cs: Vec<char> = Vec::new();
            push_str(&mut cs, host.as_str());
            push_str(&mut cs, ":");
            push_dec(&mut cs, offset as u64);
            string_of(&cs)
        },
    }
}

/// Moving the port of `host:port` by `delta` gives `host:port+delta`, which
/// reads back as that host and port.
pub proof fn lemma_offset_port(host: Seq<char>, port: u16, delta: u32)
    requires
        !host.contains(':'),
        0 < delta,
        port + delta <= 0xffff,
    ensures
        offset_port_text(host + ":"@ + text::dec(port as nat), delta) == host + ":"@ + text::dec(
            (port + delta) as nat,
        ),
        host_port(host + ":"@ + text::dec((port + delta) as nat)) == Some(
            (host, (port + delta) as u16),
        ),
{
    lemma_host_port(host, port);
    lemma_host_port(host, (port + delta) as u16);
}

proof fn lemma_dec_no_colon(n: nat)
    ensures
        !text::dec(n).contains(':'),
{
    text::lemma_dec(n);
    if text::dec(n).contains(':') {
        let i = choose|i: int| 0 <= i < text::dec(n).len() && text::dec(n)[i] == ':';
        assert(text::is_digit(text::dec(n)[i]));
    }
}

/// `host:port` with a decimal port and a host without colons reads back as both.
pub proof fn lemma_host_port(host: Seq<char>, port: u16)
    requires
        !host.contains(':'),
    ensures
        host_port(host + ":"@ + text::dec(port as nat)) == Some((host, port)),
{
    reveal_strlit(":");
    let d = text::dec(port as nat);
    let a = host + ":"@ + d;
    lemma_dec_no_colon(port as nat);
    text::lemma_dec(port as nat);
    let i = host.len() as int;
    assert(a[i] == ':');
    assert forall|k: int| i < k < a.len() implies a[k] != ':' by {
        assert(a[k] == d[k - i - 1]);
    }
    text::lemma_rsplit_once_at(a, ':', i);
    assert(a.take(i) =~= host);
    assert(a.skip(i + 1) =~= d);
    text::lemma_parse_dec(port as nat, 0xffff);
}

/// The target a stream sends to, unless it is blank or ends in port 0.
pub open spec fn normalized_target(t: Seq<char>) -> Option<Seq<char>> {
    let trimmed = text::spec_trim(t);
    if trimmed.len() == 0 || text::ends_with(trimmed, ":0"@) {
        None
    } else {
        Some(t)
    }
}

/// The configured target, unless it is blank or ends in port 0.
pub fn normalize_target(target_addr: String) -> (r: Option<String>)
    ensures
        match r {
            Some(t) => normalized_target(target_addr@) == Some(t@),
            None => normalized_target(target_addr@) is None,
        },
{
    let cs = chars_of(target_addr.as_str());
    let trimmed = trim(&cs);
    if trimmed.len() == 0 || ends_with_chars(&trimmed, &chars_of(":0")) {
        None
    } else {
        Some(target_addr)
    }
}

/// The configuration of stream `stream_id`: stream 1 keeps the base display,
/// stream `n` captures `prlx-v<n>`; ports move up by `n - 1`.
pub open spec fn derived_config(base: StreamConfigView, stream_id: u32) -> StreamConfigView {
    let delta = if stream_id >= 1 {
        (stream_id - 1) as u32
    } else {
        0
    };
    StreamConfigView {
        display: if stream_id == 1 {
            base.display
        } else {
            "prlx-v"@ + text::dec(stream_id as nat)
        },
        bind_addr: offset_port_text(base.bind_addr, delta),
        target_addr: offset_port_text(base.target_addr, delta),
        prefer_vaapi: base.prefer_vaapi,
    }
}

/// The configuration of stream `stream_id` derived from the base one.
pub fn derive_stream_config(base: &StreamConfig, stream_id: u32) -> (c: StreamConfig)
    ensures
        c@ == derived_config(base@, stream_id),
{
    let delta = stream_id.saturating_sub(1);
    let display = if stream_id == 1 {
        base.display.clone()
    } else {
        let mut cs: Vec<char> = Vec::new();
        push_str(&mut cs, "prlx-v");
        push_dec(&mut cs, stream_id as u64);
        string_of(&cs)
    };
    StreamConfig {
        display,
        bind_addr: offset_port(base.bind_addr.as_str(), delta),
        target_addr: offset_port(base.target_addr.as_str(), delta),
        prefer_vaapi: base.prefer_vaapi,
    }
}

// ---------------------------------------------------------------------------
// The slots
// ---------------------------------------------------------------------------
/// One stream slot: its configuration, the target a client set, and whether
/// its pipeline runs.
pub struct StreamSlot {
    pub display: String,
    pub bind_addr: String,
    pub target_addr: String,
    pub prefer_vaapi: bool,
    pub target: Option<String>,
    pub running: bool,
}

pub struct SlotView {
    pub config: StreamConfigView,
    pub target: Option<Seq<char>>,
    pub running: bool,
}

impl View for StreamSlot {
    type V = SlotView;

    open spec fn view(&self) -> SlotView {
        SlotView {
            config: StreamConfigView {
                display: self.display@,
                bind_addr: self.bind_addr@,
                target_addr: self.target_addr@,
                prefer_vaapi: self.prefer_vaapi,
            },
            target: match self.target {
                Some(t) => Some(t@),
                None => None,
            },
            running: self.running,
        }
    }
}

/// The slots of streams 1 to 3, keyed by stream id.
pub struct StreamTable {
    slots: BTreeMap<u32, StreamSlot>,
}

/// Whether the map holds a slot for each stream id from 1 to `MAX_STREAMS`.
pub open spec fn holds_every_slot(m: Map<u32, StreamSlot>) -> bool {
    forall|k: u32| 1 <= k <= MAX_STREAMS ==> #[trigger] m.contains_key(k)
}

/// The slots of streams 1 to `MAX_STREAMS`, in order; none where one is missing.
pub open spec fn ordered_slots(m: Map<u32, StreamSlot>) -> Seq<SlotView> {
    if holds_every_slot(m) {
        Seq::new(MAX_STREAMS as nat, |i: int| m[(i + 1) as u32]@)
    } else {
        Seq::empty()
    }
}

impl View for StreamTable {
    type V = Seq<SlotView>;

    closed spec fn view(&self) -> Seq<SlotView> {
        ordered_slots(self.slots@)
    }
}

/// Putting a slot back under its id changes that slot of the ordered list only.
proof fn lemma_slot_replaced(m: Map<u32, StreamSlot>, k: u32, s: StreamSlot)
    requires
        holds_every_slot(m),
        valid_stream(k),
    ensures
        holds_every_slot(m.remove(k).insert(k, s)),
        ordered_slots(m.remove(k).insert(k, s)) == ordered_slots(m).update(k - 1, s@),
{
    let m2 = m.remove(k).insert(k, s);
    assert forall|j: u32| 1 <= j <= MAX_STREAMS implies #[trigger] m2.contains_key(j) by {
        if j != k {
            assert(m.contains_key(j));
        }
    }
    let a = ordered_slots(m2);
    let b = ordered_slots(m).update(k - 1, s@);
    assert forall|i: int| 0 <= i < MAX_STREAMS implies #[trigger] a[i] == b[i] by {
        if i + 1 != k {
            assert(m2[(i + 1) as u32] == m[(i + 1) as u32]);
        }
    }
    assert(a =~= b);
}

/// The ids of the running slots, in order (slot `i` has id `i + 1`).
pub open spec fn running_ids(t: Seq<SlotView>) -> Seq<u32>
    decreases t.len(),
{
    if t.len() == 0 {
        Seq::empty()
    } else if t.last().running {
        running_ids(t.drop_last()).push(t.len() as u32)
    } else {
        running_ids(t.drop_last())
    }
}

/// Whether a stream id names a slot.
pub open spec fn valid_stream(id: u32) -> bool {
    1 <= id <= MAX_STREAMS
}

/// The target a slot sends to: the one a client set, else its configured one if usable.
pub open spec fn effective_target(s: SlotView) -> Option<Seq<char>> {
    match s.target {
        Some(t) => Some(t),
        None => normalized_target(s.config.target_addr),
    }
}

/// What starting a stream does: nothing for a running stream, an error where
/// the id names no slot or no target is known, else the slot runs with the
/// configuration to launch.
pub open spec fn start_result(t: Seq<SlotView>, id: u32) -> (Seq<SlotView>, Result<Option<StreamConfigView>, Seq<char>>) {
    if !valid_stream(id) {
        (t, Err("stream_id not found"@))
    } else {
        let s = t[id - 1];
        if s.running {
            (t, Ok(None))
        } else {
            match effective_target(s) {
                None => (t, Err("no target configured; waiting for client"@)),
                Some(target) => (
                    t.update(id - 1, SlotView { running: true, ..s }),
                    Ok(Some(StreamConfigView { target_addr: target, ..s.config })),
                ),
            }
        }
    }
}

/// What stopping a stream does.
pub open spec fn stop_result(t: Seq<SlotView>, id: u32) -> (Seq<SlotView>, Result<(), Seq<char>>) {
    if !valid_stream(id) {
        (t, Err("stream_id not found"@))
    } else if !t[id - 1].running {
        (t, Err("stream not running"@))
    } else {
        (t.update(id - 1, SlotView { running: false, ..t[id - 1] }), Ok(()))
    }
}

/// The stream table and the metrics of the running pipelines.
pub struct StreamMetrics {
    pub width: u32,
    pub height: u32,
    pub fps_x100: u32,
    pub bitrate_kbps: u32,
}

/// `NN.NN` frames per second from hundredths.
pub open spec fn fps_text(fps_x100: u32) -> Seq<char> {
    let frac = fps_x100 % 100;
    text::dec((fps_x100 / 100) as nat) + "."@ + (if frac < 10 {
        "0"@
    } else {
        Seq::empty()
    }) + text::dec(frac as nat)
}

/// `id,display,bind_addr,target_addr,prefer_vaapi,running,width,height,fps,bitrate_kbps`.
pub open spec fn stream_row(id: nat, s: SlotView, m: StreamMetrics) -> Seq<char> {
    row_head(id, s) + text::bool_text(s.config.prefer_vaapi) + ","@ + text::bool_text(s.running)
        + ","@ + metrics_text(m) + "\n"@
}

pub open spec fn metrics_text(m: StreamMetrics) -> Seq<char> {
    text::dec(m.width as nat) + ","@ + text::dec(m.height as nat) + ","@ + fps_text(m.fps_x100)
        + ","@ + text::dec(m.bitrate_kbps as nat)
}

pub open spec fn stream_rows(t: Seq<SlotView>, ms: Seq<StreamMetrics>) -> Seq<char>
    decreases t.len(),
{
    if t.len() == 0 {
        Seq::empty()
    } else {
        stream_rows(t.drop_last(), ms) + stream_row(t.len(), t.last(), ms[t.len() - 1])
    }
}

/// The `Streams` payload.
pub open spec fn streams_payload(t: Seq<SlotView>, ms: Seq<StreamMetrics>) -> Seq<char> {
    "protocol=2\nstreams:\n"@ + stream_rows(t, ms)
}

fn push_metrics(out: &mut Vec<char>, m: &StreamMetrics)
    ensures
        final(out)@ == old(out)@ + metrics_text(*m),
{
    let ghost before = out@;
    push_dec(out, m.width as u64);
    push_str(out, ",");
    push_dec(out, m.height as u64);
    push_str(out, ",");
    let ghost before_fps = out@;
    push_dec(out, (m.fps_x100 / 100) as u64);
    push_str(out, ".");
    let frac = m.fps_x100 % 100;
    if frac < 10 {
        push_str(out, "0");
    }
    push_dec(out, frac as u64);
    assert(out@ =~= before_fps + fps_text(m.fps_x100));
    push_str(out, ",");
    push_dec(out, m.bitrate_kbps as u64);
    assert(out@ =~= before + metrics_text(*m));
}

/// `id,display,bind_addr,target,`: the head of a stream row.
pub open spec fn row_head(id: nat, s: SlotView) -> Seq<char> {
    text::dec(id) + ","@ + s.config.display + ","@ + s.config.bind_addr + ","@ + (match s.target {
        Some(t) => t,
        None => s.config.target_addr,
    }) + ","@
}

fn push_row_head(out: &mut Vec<char>, id: u32, s: &StreamSlot)
    ensures
        final(out)@ == old(out)@ + row_head(id as nat, s@),
{
    let ghost before = out@;
    push_dec(out, id as u64);
    push_str(out, ",");
    push_str(out, s.display.as_str());
    push_str(out, ",");
    push_str(out, s.bind_addr.as_str());
    push_str(out, ",");
    match &s.target {
        Some(t) => push_str(out, t.as_str()),
        None => push_str(out, s.target_addr.as_str()),
    }
    push_str(out, ",");
    assert(out@ =~= before + row_head(id as nat, s@));
}

fn push_stream_row(out: &mut Vec<char>, id: u32, s: &StreamSlot, m: &StreamMetrics)
    ensures
        final(out)@ == old(out)@ + stream_row(id as nat, s@, *m),
{
    let ghost before = out@;
    push_row_head(out, id, s);
    let ghost mid = out@;
    text::push_bool(out, s.prefer_vaapi);
    push_str(out, ",");
    text::push_bool(out, s.running);
    push_str(out, ",");
    push_metrics(out, m);
    push_str(out, "\n");
    assert(out@ =~= mid + (text::bool_text(s.prefer_vaapi) + ","@ + text::bool_text(s.running)
        + ","@ + metrics_text(*m) + "\n"@));
    assert(stream_row(id as nat, s@, *m) =~= row_head(id as nat, s@) + (text::bool_text(
        s.prefer_vaapi,
    ) + ","@ + text::bool_text(s.running) + ","@ + metrics_text(*m) + "\n"@));
}

fn slot_of(c: StreamConfig) -> (s: StreamSlot)
    ensures
        s@ == (SlotView { config: c@, target: None, running: false }),
{
    StreamSlot {
        display: c.display,
        bind_addr: c.bind_addr,
        target_addr: c.target_addr,
        prefer_vaapi: c.prefer_vaapi,
        target: None,
        running: false,
    }
}

impl StreamTable {
    /// Three idle slots, configured from the base configuration.
    pub fn new(config: &StreamConfig) -> (t: Self)
        ensures
            t@.len() == MAX_STREAMS,
            forall|i: int|
                0 <= i < MAX_STREAMS ==> #[trigger] t@[i] == (SlotView {
                    config: derived_config(config@, (i + 1) as u32),
                    target: None,
                    running: false,
                }),
    {
        let mut slots: BTreeMap<u32, StreamSlot> = BTreeMap::new();
        let mut stream_id: u32 = 1;
        while stream_id <= MAX_STREAMS
            invariant
                1 <= stream_id <= MAX_STREAMS + 1,
                forall|k: u32|
                    1 <= k < stream_id ==> #[trigger] slots@.contains_key(k) && slots@[k]@ == (SlotView {
                        config: derived_config(config@, k),
                        target: None,
                        running: false,
                    }),
            decreases MAX_STREAMS + 1 - stream_id,
        {
            let derived = derive_stream_config(config, stream_id);
            slots.insert(stream_id, slot_of(derived));
            stream_id = stream_id + 1;
        }
        let t = StreamTable { slots };
        assert(holds_every_slot(t.slots@));
        assert forall|i: int| 0 <= i < MAX_STREAMS implies #[trigger] t@[i] == (SlotView {
            config: derived_config(config@, (i + 1) as u32),
            target: None,
            running: false,
        }) by {
            assert(t.slots@.contains_key((i + 1) as u32));
        }
        t
    }

    /// The number of slots: all three, as every operation keeps them.
    pub fn len(&self) -> (n: usize)
        ensures
            n == self@.len(),
    {
        if self.slots.contains_key(&1) && self.slots.contains_key(&2) && self.slots.contains_key(&3) {
            assert(holds_every_slot(self.slots@));
            3
        } else {
            0
        }
    }

    /// The slot of a stream.
    fn slot(&self, stream_id: u32) -> (s: &StreamSlot)
        requires
            self@.len() == MAX_STREAMS,
            valid_stream(stream_id),
        ensures
            s@ == self@[stream_id - 1],
    {
        assert(self.slots@.contains_key(stream_id));
        let r = self.slots.get(&stream_id);
        r.unwrap()
    }

    /// Takes the slot of a stream out of the table, to be put back changed.
    fn take_slot(&mut self, stream_id: u32) -> (s: StreamSlot)
        requires
            old(self)@.len() == MAX_STREAMS,
            valid_stream(stream_id),
        ensures
            s@ == old(self)@[stream_id - 1],
            final(self).slots@ == old(self).slots@.remove(stream_id),
            holds_every_slot(old(self).slots@),
    {
        assert(self.slots@.contains_key(stream_id));
        let r = self.slots.remove(&stream_id);
        r.unwrap()
    }

    /// Marks a stream to run and gives the configuration to launch it with;
    /// `Ok(None)` where it runs already.
    pub fn start_stream(&mut self, stream_id: u32) -> (r: Result<Option<StreamConfig>, String>)
        requires
            old(self)@.len() == MAX_STREAMS,
        ensures
            final(self)@.len() == MAX_STREAMS,
            ({
                let (t, res) = start_result(old(self)@, stream_id);
                &&& final(self)@ == t
                &&& match r {
                    Ok(None) => res == Ok::<Option<StreamConfigView>, Seq<char>>(None),
                    Ok(Some(c)) => res == Ok::<Option<StreamConfigView>, Seq<char>>(Some(c@)),
                    Err(e) => res == Err::<Option<StreamConfigView>, Seq<char>>(e@),
                }
            }),
    {
        if stream_id < 1 || stream_id > MAX_STREAMS {
            return Err(String::from_str("stream_id not found"));
        }
        let slot = self.slot(stream_id);
        if slot.running {
            return Ok(None);
        }
        let target = match &slot.target {
            Some(t) => Some(t.clone()),
            None => normalize_target(slot.target_addr.clone()),
        };
        let target_addr = match target {
            Some(t) => t,
            None => return Err(String::from_str("no target configured; waiting for client")),
        };
        let config = StreamConfig {
            display: slot.display.clone(),
            bind_addr: slot.bind_addr.clone(),
            target_addr,
            prefer_vaapi: slot.prefer_vaapi,
        };
        self.set_running(stream_id, true);
        Ok(Some(config))
    }

    fn set_running(&mut self, stream_id: u32, running: bool)
        requires
            old(self)@.len() == MAX_STREAMS,
            valid_stream(stream_id),
        ensures
            final(self)@ == old(self)@.update(
                stream_id - 1,
                SlotView { running, ..old(self)@[stream_id - 1] },
            ),
    {
        let ghost m = self.slots@;
        let mut slot = self.take_slot(stream_id);
        slot.running = running;
        let ghost sv = slot;
        self.slots.insert(stream_id, slot);
        proof {
            lemma_slot_replaced(m, stream_id, sv);
        }
        assert(sv@ == SlotView { running, ..old(self)@[stream_id - 1] });
    }

    /// Marks a running stream stopped.
    pub fn stop_stream(&mut self, stream_id: u32) -> (r: Result<(), String>)
        requires
            old(self)@.len() == MAX_STREAMS,
        ensures
            final(self)@.len() == MAX_STREAMS,
            ({
                let (t, res) = stop_result(old(self)@, stream_id);
                &&& final(self)@ == t
                &&& match r {
                    Ok(()) => res == Ok::<(), Seq<char>>(()),
                    Err(e) => res == Err::<(), Seq<char>>(e@),
                }
            }),
    {
        if stream_id < 1 || stream_id > MAX_STREAMS {
            return Err(String::from_str("stream_id not found"));
        }
        if !self.slot(stream_id).running {
            return Err(String::from_str("stream not running"));
        }
        self.set_running(stream_id, false);
        Ok(())
    }

    /// Points every stream at the client: stream `n` at the target's port plus
    /// `n - 1`. Gives the running streams, in order, which must be restarted.
    pub fn set_target(&mut self, target: &str) -> (restart: Vec<u32>)
        requires
            old(self)@.len() == MAX_STREAMS,
        ensures
            final(self)@.len() == MAX_STREAMS,
            forall|i: int|
                0 <= i < MAX_STREAMS ==> #[trigger] final(self)@[i] == (SlotView {
                    target: Some(offset_port_text(target@, i as u32)),
                    ..old(self)@[i]
                }),
            restart@ == running_ids(old(self)@),
    {
        let ghost old_t = self@;
        let mut restart: Vec<u32> = Vec::new();
        let mut id: u32 = 1;
        while id <= MAX_STREAMS
            invariant
                old_t.len() == MAX_STREAMS,
                self@.len() == MAX_STREAMS,
                1 <= id <= MAX_STREAMS + 1,
                forall|i: int|
                    0 <= i < id - 1 ==> #[trigger] self@[i] == (SlotView {
                        target: Some(offset_port_text(target@, i as u32)),
                        ..old_t[i]
                    }),
                forall|i: int| id - 1 <= i < MAX_STREAMS ==> #[trigger] self@[i] == old_t[i],
                restart@ == running_ids(old_t.take(id - 1)),
            decreases MAX_STREAMS + 1 - id,
        {
            let ghost before = self@;
            let ghost m = self.slots@;
            let idx: u32 = id - 1;
            let t = offset_port(target, idx);
            let mut slot = self.take_slot(id);
            slot.target = Some(t);
            let running = slot.running;
            let ghost sv = slot;
            self.slots.insert(id, slot);
            proof {
                lemma_slot_replaced(m, id, sv);
            }
            assert(self@ =~= before.update(
                idx as int,
                SlotView { target: Some(offset_port_text(target@, idx)), ..before[idx as int] },
            ));
            assert(old_t.take(id as int).drop_last() =~= old_t.take(idx as int));
            assert(old_t.take(id as int).last() == old_t[idx as int]);
            if running {
                restart.push(id);
            }
            id = id + 1;
        }
        assert(old_t.take(MAX_STREAMS as int) =~= old_t);
        restart
    }

    /// Replaces the settings that are given; `Ok(true)` where something changed on
    /// a running stream, which must then be restarted.
    pub fn set_stream_config(
        &mut self,
        stream_id: u32,
        display: Option<String>,
        bind_addr: Option<String>,
        target_addr: Option<String>,
        prefer_vaapi: Option<bool>,
    ) -> (r: Result<bool, String>)
        requires
            old(self)@.len() == MAX_STREAMS,
        ensures
            final(self)@.len() == MAX_STREAMS,
            !valid_stream(stream_id) ==> final(self)@ == old(self)@ && (r matches Err(e) && e@
                == "stream_id not found"@),
            valid_stream(stream_id) ==> ({
                let s = old(self)@[stream_id - 1];
                let n = configured(s, opt_seq(display), opt_seq(bind_addr), opt_seq(target_addr), prefer_vaapi);
                &&& final(self)@ == old(self)@.update(stream_id - 1, n)
                &&& r == Ok::<bool, String>(n != s && s.running)
            }),
            valid_stream(stream_id) ==> ({
                let s = old(self)@[stream_id - 1];
                let f = final(self)@[stream_id - 1];
                &&& f.config.display == (match display {
                    Some(d) => d@,
                    None => s.config.display,
                })
                &&& f.config.bind_addr == (match bind_addr {
                    Some(b) => b@,
                    None => s.config.bind_addr,
                })
                &&& f.config.target_addr == (match target_addr {
                    Some(t) => t@,
                    None => s.config.target_addr,
                })
                &&& f.config.prefer_vaapi == (match prefer_vaapi {
                    Some(v) => v,
                    None => s.config.prefer_vaapi,
                })
                &&& f.running == s.running
                &&& r == Ok::<bool, String>(
                    s.running && (differs(opt_seq(display), s.config.display) || differs(
                        opt_seq(bind_addr),
                        s.config.bind_addr,
                    ) || differs(opt_seq(target_addr), s.config.target_addr) || differs(
                        prefer_vaapi,
                        s.config.prefer_vaapi,
                    )),
                )
            }),
    {
        if stream_id < 1 || stream_id > MAX_STREAMS {
            return Err(String::from_str("stream_id not found"));
        }
        let ghost before = self@;
        let ghost m = self.slots@;
        let ghost idx = stream_id - 1;
        let mut slot = self.take_slot(stream_id);
        let mut changed = false;
        if let Some(v) = display {
            if slot.display != v {
                slot.display = v;
                changed = true;
            }
        }
        if let Some(v) = bind_addr {
            if slot.bind_addr != v {
                slot.bind_addr = v;
                changed = true;
            }
        }
        if let Some(v) = target_addr {
            if slot.target_addr != v {
                slot.target_addr = v.clone();
                slot.target = Some(v);
                changed = true;
            }
        }
        if let Some(v) = prefer_vaapi {
            if slot.prefer_vaapi != v {
                slot.prefer_vaapi = v;
                changed = true;
            }
        }
        let running = slot.running;
        let ghost n = configured(
            before[idx as int],
            opt_seq(display),
            opt_seq(bind_addr),
            opt_seq(target_addr),
            prefer_vaapi,
        );
        assert(slot@ == n);
        assert(changed == (n != before[idx as int])) by {
            if !changed {
                assert(n =~= before[idx as int]);
            } else {
                assert(n.config != before[idx as int].config);
            }
        }
        let ghost sv = slot;
        self.slots.insert(stream_id, slot);
        proof {
            lemma_slot_replaced(m, stream_id, sv);
            lemma_configured_settings(
                before[idx as int],
                opt_seq(display),
                opt_seq(bind_addr),
                opt_seq(target_addr),
                prefer_vaapi,
            );
        }
        Ok(changed && running)
    }

    /// The `Streams` payload, with each slot's metrics.
    pub fn list_streams(&self, metrics: &[StreamMetrics]) -> (out: String)
        requires
            self@.len() == MAX_STREAMS,
            metrics@.len() == self@.len(),
        ensures
            out@ == streams_payload(self@, metrics@),
    {
        let mut cs: Vec<char> = Vec::new();
        push_str(&mut cs, "protocol=2\nstreams:\n");
        let ghost head = cs@;
        let ghost t = self@;
        let n: usize = 3;
        let mut i: usize = 0;
        while i < n
            invariant
                n == MAX_STREAMS,
                t == self@,
                t.len() == n,
                metrics@.len() == n,
                i <= n,
                cs@ == head + stream_rows(t.take(i as int), metrics@),
            decreases n - i,
        {
            let slot = self.slot((i + 1) as u32);
            assert(t.take(i + 1).drop_last() =~= t.take(i as int));
            assert(t.take(i + 1).last() == slot@);
            push_stream_row(&mut cs, (i + 1) as u32, slot, &metrics[i]);
            assert(cs@ =~= head + stream_rows(t.take(i + 1), metrics@));
            i = i + 1;
        }
        assert(t.take(n as int) =~= t);
        string_of(&cs)
    }
}

pub open spec fn opt_seq(v: Option<String>) -> Option<Seq<char>> {
    match v {
        Some(s) => Some(s@),
        None => None,
    }
}

/// A slot with the given settings replaced; a new configured target also
/// becomes the slot's target.
pub open spec fn configured(
    s: SlotView,
    display: Option<Seq<char>>,
    bind_addr: Option<Seq<char>>,
    target_addr: Option<Seq<char>>,
    prefer_vaapi: Option<bool>,
) -> SlotView {
    let c = s.config;
    let new_target = match target_addr {
        Some(t) => t != c.target_addr,
        None => false,
    };
    SlotView {
        config: StreamConfigView {
            display: match display {
                Some(d) => d,
                None => c.display,
            },
            bind_addr: match bind_addr {
                Some(b) => b,
                None => c.bind_addr,
            },
            target_addr: match target_addr {
                Some(t) => t,
                None => c.target_addr,
            },
            prefer_vaapi: match prefer_vaapi {
                Some(v) => v,
                None => c.prefer_vaapi,
            },
        },
        target: if new_target {
            target_addr
        } else {
            s.target
        },
        running: s.running,
    }
}

/// Whether a given setting differs from the one the slot has.
pub open spec fn differs<T>(given: Option<T>, current: T) -> bool {
    match given {
        Some(v) => v != current,
        None => false,
    }
}

/// Reconfiguring a slot sets each setting that is given to the given value and
/// keeps each one that is not; the slot keeps running or idle; it changes
/// exactly when a given setting differs from the current one; and a new target
/// address also becomes the address the stream sends to.
pub proof fn lemma_configured_settings(
    s: SlotView,
    display: Option<Seq<char>>,
    bind_addr: Option<Seq<char>>,
    target_addr: Option<Seq<char>>,
    prefer_vaapi: Option<bool>,
)
    ensures
        ({
            let n = configured(s, display, bind_addr, target_addr, prefer_vaapi);
            &&& display matches Some(d) ==> n.config.display == d
            &&& display is None ==> n.config.display == s.config.display
            &&& bind_addr matches Some(b) ==> n.config.bind_addr == b
            &&& bind_addr is None ==> n.config.bind_addr == s.config.bind_addr
            &&& target_addr matches Some(t) ==> n.config.target_addr == t
            &&& target_addr is None ==> n.config.target_addr == s.config.target_addr
            &&& prefer_vaapi matches Some(v) ==> n.config.prefer_vaapi == v
            &&& prefer_vaapi is None ==> n.config.prefer_vaapi == s.config.prefer_vaapi
            &&& n.running == s.running
            &&& differs(target_addr, s.config.target_addr) ==> n.target == target_addr
            &&& !differs(target_addr, s.config.target_addr) ==> n.target == s.target
            &&& (n != s) == (differs(display, s.config.display) || differs(
                bind_addr,
                s.config.bind_addr,
            ) || differs(target_addr, s.config.target_addr) || differs(
                prefer_vaapi,
                s.config.prefer_vaapi,
            ))
        }),
{
    let n = configured(s, display, bind_addr, target_addr, prefer_vaapi);
    if differs(display, s.config.display) || differs(bind_addr, s.config.bind_addr) || differs(
        target_addr,
        s.config.target_addr,
    ) || differs(prefer_vaapi, s.config.prefer_vaapi) {
        assert(n.config != s.config);
    } else {
        assert(n.config =~= s.config);
        assert(n =~= s);
    }
}

/// Starting or stopping a stream leaves the other slots as they were.
pub proof fn lemma_streams_independent(t: Seq<SlotView>, id: u32, other: int)
    requires
        t.len() == MAX_STREAMS,
        0 <= other < MAX_STREAMS,
        other != id - 1,
    ensures
        start_result(t, id).0[other] == t[other],
        stop_result(t, id).0[other] == t[other],
{
}

/// Starting a running stream does nothing; starting a stopped one that has a
/// target makes it run, and stopping it then makes it idle again with its
/// settings as they were.
pub proof fn lemma_start_stop(t: Seq<SlotView>, id: u32)
    requires
        t.len() == MAX_STREAMS,
        valid_stream(id),
    ensures
        t[id - 1].running ==> start_result(t, id) == (t, Ok::<Option<StreamConfigView>, Seq<char>>(None)),
        !t[id - 1].running && effective_target(t[id - 1]) is Some ==> ({
            let started = start_result(t, id).0;
            &&& started[id - 1].running
            &&& stop_result(started, id) == (t, Ok::<(), Seq<char>>(()))
        }),
{
    if !t[id - 1].running && effective_target(t[id - 1]) is Some {
        let started = start_result(t, id).0;
        assert(stop_result(started, id).0 =~= t);
    }
}

// ---------------------------------------------------------------------------
// What the stream list says of the displays in use
// ---------------------------------------------------------------------------
/// The target a slot shows in the stream list.
pub open spec fn shown_target(s: SlotView) -> Seq<char> {
    match s.target {
        Some(t) => t,
        None => s.config.target_addr,
    }
}

/// A field that the comma-separated list keeps apart: no comma, no line feed.
pub open spec fn plain_field(x: Seq<char>) -> bool {
    !x.contains(',') && !x.contains('\n')
}

/// A slot whose text fields fit the stream list.
pub open spec fn listable(s: SlotView) -> bool {
    plain_field(s.config.display) && plain_field(s.config.bind_addr) && plain_field(shown_target(s))
}

/// The fields of a stream row, in order.
pub open spec fn row_fields(id: nat, s: SlotView, m: StreamMetrics) -> Seq<Seq<char>> {
    seq![
        text::dec(id),
        s.config.display,
        s.config.bind_addr,
        shown_target(s),
        text::bool_text(s.config.prefer_vaapi),
        text::bool_text(s.running),
        text::dec(m.width as nat),
        text::dec(m.height as nat),
        fps_text(m.fps_x100),
        text::dec(m.bitrate_kbps as nat),
    ]
}

proof fn lemma_fps_plain(f: u32)
    ensures
        plain_field(fps_text(f)),
{
    reveal_strlit(".");
    reveal_strlit("0");
    let q = f / 100;
    let r = f % 100;
    text::lemma_dec_int_has_no(q as int, ',');
    text::lemma_dec_int_has_no(q as int, '\n');
    text::lemma_dec_int_has_no(r as int, ',');
    text::lemma_dec_int_has_no(r as int, '\n');
    let fp = fps_text(f);
    let a = text::dec(q as nat);
    let pad: Seq<char> = if r < 10 {
        "0"@
    } else {
        Seq::empty()
    };
    let b = text::dec(r as nat);
    assert(text::dec_int(q as int) == a);
    assert(text::dec_int(r as int) == b);
    assert forall|k: int| 0 <= k < fp.len() implies fp[k] != ',' && fp[k] != '\n' by {
        if k < a.len() {
            assert(fp[k] == a[k]);
        } else if k == a.len() {
            assert(fp[k] == '.');
        } else if k < a.len() + 1 + pad.len() {
            assert(fp[k] == pad[k - a.len() - 1]);
        } else {
            assert(fp[k] == b[k - a.len() - 1 - pad.len()]);
        }
    }
}

proof fn lemma_fields_plain(id: nat, s: SlotView, m: StreamMetrics)
    requires
        listable(s),
    ensures
        forall|i: int| 0 <= i < 10 ==> plain_field(#[trigger] row_fields(id, s, m)[i]),
{
    reveal_strlit("true");
    reveal_strlit("false");
    let f = row_fields(id, s, m);
    text::lemma_dec_int_has_no(id as int, ',');
    text::lemma_dec_int_has_no(id as int, '\n');
    text::lemma_dec_int_has_no(m.width as int, ',');
    text::lemma_dec_int_has_no(m.width as int, '\n');
    text::lemma_dec_int_has_no(m.height as int, ',');
    text::lemma_dec_int_has_no(m.height as int, '\n');
    text::lemma_dec_int_has_no(m.bitrate_kbps as int, ',');
    text::lemma_dec_int_has_no(m.bitrate_kbps as int, '\n');
    lemma_fps_plain(m.fps_x100);
    assert(plain_field(text::bool_text(s.config.prefer_vaapi)));
    assert(plain_field(text::bool_text(s.running)));
    assert(text::dec_int(id as int) == text::dec(id));
    assert(text::dec_int(m.width as int) == text::dec(m.width as nat));
    assert(text::dec_int(m.height as int) == text::dec(m.height as nat));
    assert(text::dec_int(m.bitrate_kbps as int) == text::dec(m.bitrate_kbps as nat));
}

proof fn lemma_ten_fields(
    a0: Seq<char>,
    a1: Seq<char>,
    a2: Seq<char>,
    a3: Seq<char>,
    a4: Seq<char>,
    a5: Seq<char>,
    a6: Seq<char>,
    a7: Seq<char>,
    a8: Seq<char>,
    a9: Seq<char>,
)
    ensures
        (a0 + ","@ + a1 + ","@ + a2 + ","@ + a3 + ","@) + a4 + ","@ + a5 + ","@ + (a6 + ","@ + a7
            + ","@ + a8 + ","@ + a9) + "\n"@ == text::join_with(
            seq![a0, a1, a2, a3, a4, a5, a6, a7, a8, a9],
            ',',
        ).push('\n'),
{
    reveal_strlit(",");
    reveal_strlit("\n");
    let f = seq![a0, a1, a2, a3, a4, a5, a6, a7, a8, a9];
    let g1 = seq![a0];
    let g2 = g1.push(a1);
    let g3 = g2.push(a2);
    let g4 = g3.push(a3);
    let g5 = g4.push(a4);
    let g6 = g5.push(a5);
    let g7 = g6.push(a6);
    let g8 = g7.push(a7);
    let g9 = g8.push(a8);
    assert(g9.push(a9) =~= f);
    assert(text::join_with(g1, ',') == a0);
    text::lemma_join_push(g1, a1, ',');
    text::lemma_join_push(g2, a2, ',');
    text::lemma_join_push(g3, a3, ',');
    text::lemma_join_push(g4, a4, ',');
    text::lemma_join_push(g5, a5, ',');
    text::lemma_join_push(g6, a6, ',');
    text::lemma_join_push(g7, a7, ',');
    text::lemma_join_push(g8, a8, ',');
    text::lemma_join_push(g9, a9, ',');
    let j = a0.push(',') + a1;
    let j = j.push(',') + a2;
    let j = j.push(',') + a3;
    let j = j.push(',') + a4;
    let j = j.push(',') + a5;
    let j = j.push(',') + a6;
    let j = j.push(',') + a7;
    let j = j.push(',') + a8;
    let j = j.push(',') + a9;
    assert(text::join_with(f, ',') == j);
    assert((a0 + ","@ + a1 + ","@ + a2 + ","@ + a3 + ","@) + a4 + ","@ + a5 + ","@ + (a6 + ","@ + a7
        + ","@ + a8 + ","@ + a9) + "\n"@ =~= j.push('\n'));
}

proof fn lemma_row_join(id: nat, s: SlotView, m: StreamMetrics)
    ensures
        stream_row(id, s, m) == text::join_with(row_fields(id, s, m), ',').push('\n'),
{
    let f = row_fields(id, s, m);
    lemma_ten_fields(f[0], f[1], f[2], f[3], f[4], f[5], f[6], f[7], f[8], f[9]);
    assert(seq![f[0], f[1], f[2], f[3], f[4], f[5], f[6], f[7], f[8], f[9]] =~= f);
}

proof fn lemma_row_text_plain(id: nat, s: SlotView, m: StreamMetrics)
    requires
        listable(s),
    ensures
        !text::join_with(row_fields(id, s, m), ',').contains('\n'),
{
    lemma_fields_plain(id, s, m);
    let f = row_fields(id, s, m);
    let r = text::join_with(f, ',');
    if r.contains('\n') {
        let k = choose|k: int| 0 <= k < r.len() && r[k] == '\n';
        lemma_join_char(f, ',', k);
        let i = choose|i: int| 0 <= i < f.len() && f[i].contains(r[k]);
        assert(plain_field(f[i]));
    }
}

/// A row of the stream list says that a stream runs on display `d` exactly when it does.
proof fn lemma_row_uses_display(id: nat, s: SlotView, m: StreamMetrics, d: Seq<char>)
    requires
        listable(s),
    ensures
        payloads::line_uses_display(text::join_with(row_fields(id, s, m), ','), d) == (s.running
            && s.config.display == d),
{
    reveal_strlit("true");
    reveal_strlit("false");
    reveal_strlit("1");
    reveal_strlit("yes");
    reveal_strlit("protocol=");
    reveal_strlit("streams:");
    lemma_fields_plain(id, s, m);
    let f = row_fields(id, s, m);
    let line = text::join_with(f, ',');
    assert forall|i: int| 0 <= i < f.len() implies !(#[trigger] f[i]).contains(',') by {
        assert(plain_field(f[i]));
    }
    text::lemma_split_join(f, ',');
    text::lemma_dec(id);
    text::lemma_dec(m.bitrate_kbps as nat);
    let first = text::dec(id);
    let last = text::dec(m.bitrate_kbps as nat);
    assert(line.len() > 0 && line[0] == first[0] && line.last() == last.last()) by {
        reveal_with_fuel(text::join_with, 11);
        let g = f.drop_last();
        assert(line == text::join_with(g, ',').push(',') + last);
        assert(line.last() == last[last.len() - 1]);
        assert(text::join_with(g, ',')[0] == first[0]) by {
            assert(f[0] == first);
        }
    }
    assert(text::is_digit(first[0]));
    assert(text::is_digit(last[last.len() - 1]));
    assert(text::trim_start(line) == line);
    assert(text::trim_end(line) == line);
    assert(!text::starts_with(line, "protocol="@)) by {
        assert("protocol="@[0] == 'p');
        if text::starts_with(line, "protocol="@) {
            assert(line.take(9)[0] == line[0]);
        }
    }
    assert(line != "streams:"@) by {
        assert("streams:"@[0] == 's');
    }
    assert(payloads::is_running_word(text::bool_text(s.running)) == s.running) by {
        assert("false"@.len() == 5 && "true"@.len() == 4 && "1"@.len() == 1 && "yes"@.len() == 3);
        assert("false"@ != "true"@ && "false"@ != "1"@ && "false"@ != "yes"@);
    }
}

/// The rows of the stream list without their line feeds.
pub open spec fn row_texts(t: Seq<SlotView>, ms: Seq<StreamMetrics>) -> Seq<Seq<char>> {
    Seq::new(t.len(), |i: int| text::join_with(row_fields((i + 1) as nat, t[i], ms[i]), ','))
}

proof fn lemma_payload_head()
    ensures
        text::spec_split("protocol=2\nstreams:\n"@, '\n') == seq![
            "protocol=2"@,
            "streams:"@,
            Seq::<char>::empty(),
        ],
{
    reveal_strlit("protocol=2\nstreams:\n");
    reveal_strlit("protocol=2");
    reveal_strlit("streams:");
    let a = "protocol=2"@;
    let b = "streams:"@;
    assert("protocol=2\nstreams:\n"@ =~= a.push('\n') + b.push('\n'));
    assert(!a.contains('\n')) by {
        if a.contains('\n') {
            let k = choose|k: int| 0 <= k < a.len() && a[k] == '\n';
        }
    }
    assert(!b.contains('\n')) by {
        if b.contains('\n') {
            let k = choose|k: int| 0 <= k < b.len() && b[k] == '\n';
        }
    }
    text::lemma_split_none(a, '\n');
    text::lemma_split_none(b, '\n');
    text::lemma_split_sep(a, '\n', b.push('\n'));
    assert(b.push('\n').drop_last() =~= b);
    assert(seq![a] + seq![b, Seq::<char>::empty()] =~= seq![a, b, Seq::<char>::empty()]);
}

proof fn lemma_payload_split(t: Seq<SlotView>, ms: Seq<StreamMetrics>)
    requires
        ms.len() >= t.len(),
        forall|k: int| 0 <= k < t.len() ==> listable(#[trigger] t[k]),
    ensures
        text::spec_split(streams_payload(t, ms), '\n') == (seq!["protocol=2"@, "streams:"@] + row_texts(
            t,
            ms,
        )).push(Seq::<char>::empty()),
        streams_payload(t, ms).len() > 0,
        streams_payload(t, ms).last() == '\n',
    decreases t.len(),
{
    reveal_strlit("protocol=2\nstreams:\n");
    let head = seq!["protocol=2"@, "streams:"@];
    if t.len() == 0 {
        lemma_payload_head();
        assert(streams_payload(t, ms) =~= "protocol=2\nstreams:\n"@);
        assert(row_texts(t, ms) =~= Seq::<Seq<char>>::empty());
        assert(seq!["protocol=2"@, "streams:"@, Seq::<char>::empty()] =~= (head + row_texts(t, ms)).push(
            Seq::<char>::empty(),
        ));
    } else {
        let init = t.drop_last();
        let n = t.len();
        assert forall|k: int| 0 <= k < init.len() implies listable(#[trigger] init[k]) by {
            assert(init[k] == t[k]);
        }
        lemma_payload_split(init, ms);
        let s = t.last();
        assert(listable(s)) by {
            assert(t[n - 1] == s);
        }
        let m = ms[n - 1];
        lemma_row_join(n as nat, s, m);
        lemma_row_text_plain(n as nat, s, m);
        let r = text::join_with(row_fields(n as nat, s, m), ',');
        assert(streams_payload(t, ms) =~= streams_payload(init, ms) + r.push('\n'));
        text::lemma_split_line_step(streams_payload(init, ms), head + row_texts(init, ms), r);
        assert(row_texts(t, ms) =~= row_texts(init, ms).push(r));
        assert((head + row_texts(init, ms)).push(r) =~= head + row_texts(t, ms));
    }
}

/// A character of joined pieces other than the separator lies in one of the pieces.
proof fn lemma_join_char(ps: Seq<Seq<char>>, sep: char, k: int)
    requires
        0 <= k < text::join_with(ps, sep).len(),
        text::join_with(ps, sep)[k] != sep,
    ensures
        exists|i: int| 0 <= i < ps.len() && ps[i].contains(text::join_with(ps, sep)[k]),
    decreases ps.len(),
{
    let j = text::join_with(ps, sep);
    if ps.len() == 1 {
        assert(ps[0][k] == j[k]);
    } else if ps.len() > 1 {
        let init = ps.drop_last();
        let ji = text::join_with(init, sep);
        if k < ji.len() {
            assert(j[k] == ji[k]);
            lemma_join_char(init, sep, k);
            let i = choose|i: int| 0 <= i < init.len() && init[i].contains(ji[k]);
            assert(ps[i] == init[i]);
        } else {
            assert(k > ji.len());
            assert(j[k] == ps.last()[k - ji.len() - 1]);
            assert(ps[ps.len() - 1] == ps.last());
        }
    }
}

/// The stream list shows a running stream on a display exactly when a stream
/// of the table runs on it: the check that keeps a display in use from being
/// removed reads the list the table gives. Stated for slots whose display,
/// bind address and target hold no comma or line feed.
pub proof fn lemma_listed_display_in_use(t: Seq<SlotView>, ms: Seq<StreamMetrics>, d: Seq<char>)
    requires
        ms.len() == t.len(),
        forall|k: int| 0 <= k < t.len() ==> listable(#[trigger] t[k]),
    ensures
        payloads::display_in_use(streams_payload(t, ms), d) <==> exists|k: int|
            0 <= k < t.len() && #[trigger] t[k].running && t[k].config.display == d,
{
    reveal_strlit("protocol=2");
    reveal_strlit("streams:");
    reveal_strlit("protocol=");
    lemma_payload_split(t, ms);
    let head = seq!["protocol=2"@, "streams:"@];
    let kept = head + row_texts(t, ms);
    let parts = text::spec_split(streams_payload(t, ms), '\n');
    assert(parts.drop_last() =~= kept);
    assert(parts.last().len() == 0);
    assert forall|i: int| 0 <= i < kept.len() implies text::strip_cr(#[trigger] kept[i]) == kept[i] by {
        if i >= 2 {
            let k = i - 2;
            assert(kept[i] == row_texts(t, ms)[k]);
            lemma_fields_plain((k + 1) as nat, t[k], ms[k]);
            text::lemma_dec(ms[k].bitrate_kbps as nat);
            let f = row_fields((k + 1) as nat, t[k], ms[k]);
            let last = text::dec(ms[k].bitrate_kbps as nat);
            assert(kept[i].last() == last.last()) by {
                reveal_with_fuel(text::join_with, 11);
                assert(kept[i] == text::join_with(f.drop_last(), ',').push(',') + last);
            }
            assert(text::is_digit(last[last.len() - 1]));
        } else if i == 0 {
            assert(kept[0] == "protocol=2"@);
        } else {
            assert(kept[1] == "streams:"@);
        }
    }
    let ls = text::spec_lines(streams_payload(t, ms));
    assert(ls =~= kept);
    assert(!payloads::line_uses_display(ls[0], d)) by {
        assert(ls[0] == "protocol=2"@);
        assert(text::trim_start(ls[0]) == ls[0]);
        assert(text::trim_end(ls[0]) == ls[0]);
        assert(text::starts_with(ls[0], "protocol="@)) by {
            assert(ls[0].take(9) =~= "protocol="@);
        }
    }
    assert(!payloads::line_uses_display(ls[1], d)) by {
        assert(ls[1] == "streams:"@);
        assert(text::trim_start(ls[1]) == ls[1]);
        assert(text::trim_end(ls[1]) == ls[1]);
    }
    if payloads::display_in_use(streams_payload(t, ms), d) {
        let i = choose|i: int| 0 <= i < ls.len() && #[trigger] payloads::line_uses_display(ls[i], d);
        let k = i - 2;
        lemma_row_uses_display((k + 1) as nat, t[k], ms[k], d);
        assert(ls[i] == row_texts(t, ms)[k]);
        assert(t[k].running && t[k].config.display == d);
    }
    if exists|k: int| 0 <= k < t.len() && #[trigger] t[k].running && t[k].config.display == d {
        let k = choose|k: int| 0 <= k < t.len() && #[trigger] t[k].running && t[k].config.display == d;
        lemma_row_uses_display((k + 1) as nat, t[k], ms[k], d);
        assert(ls[k + 2] == row_texts(t, ms)[k]);
        assert(payloads::line_uses_display(ls[k + 2], d));
    }
}

} // verus!
