//! The text payloads of control requests: pairing, stream selection, stream
//! configuration, virtual display changes, and the stream list.
use vstd::prelude::*;

use crate::display::{VirtualDisplay, VirtualDisplayView};
use crate::text;
use crate::text::{
    chars_eq_str, chars_of, decode_utf8, lines, parse_i32, parse_u16, parse_u32, split,
    split_once, starts_with_chars, string_of, trim,
};

verus! {

// ---------------------------------------------------------------------------
// PairRequest
// ---------------------------------------------------------------------------
/// A pairing request: the token, then optionally `|` and the UDP port the
/// client listens on.
pub open spec fn pair_request_meaning(p: Seq<u8>) -> Option<(Seq<char>, Option<u16>)> {
    match text::decode(p) {
        None => None,
        Some(t) => match text::spec_split_once(t, '|') {
            Some((tok, port)) => match text::spec_parse_u16(port) {
                Some(n) => Some((tok, Some(n as u16))),
                None => None,
            },
            None => Some((t, None)),
        },
    }
}

/// Reads a pairing request; `Err` where it is not UTF-8 or its port does not read.
pub fn parse_pair_request(payload: &[u8]) -> (r: Result<(String, Option<u16>), ()>)
    ensures
        match r {
            Ok((tok, port)) => pair_request_meaning(payload@) == Some((tok@, port)),
            Err(()) => pair_request_meaning(payload@) is None,
        },
{
    let t = match decode_utf8(payload) {
        Some(t) => t,
        None => return Err(()),
    };
    match split_once(&t, '|') {
        Some((tok, port)) => match parse_u16(&port) {
            Some(n) => Ok((string_of(&tok), Some(n))),
            None => Err(()),
        },
        None => Ok((string_of(&t), None)),
    }
}

// ---------------------------------------------------------------------------
// StartStream / StopStream
// ---------------------------------------------------------------------------
/// The stream a start or stop request names: stream 1 for an empty or blank
/// payload, else `stream_id=<id>` or a plain `<id>`.
pub open spec fn stream_id_meaning(p: Seq<u8>) -> Result<u32, Seq<char>> {
    if p.len() == 0 {
        Ok(1)
    } else {
        match text::decode(p) {
            None => Err("invalid stream payload"@),
            Some(raw) => {
                let t = text::spec_trim(raw);
                if t.len() == 0 {
                    Ok(1)
                } else {
                    match text::spec_split_once(t, '=') {
                        Some((k, v)) if k == "stream_id"@ => match text::spec_parse_u32(v) {
                            Some(n) => Ok(n as u32),
                            None => Err("invalid stream_id"@),
                        },
                        _ => match text::spec_parse_u32(t) {
                            Some(n) => Ok(n as u32),
                            None => Err("stream payload expects stream_id or stream_id=<id>"@),
                        },
                    }
                }
            },
        }
    }
}

/// Reads the stream id of a start or stop request.
pub fn parse_optional_stream_id_payload(payload: &[u8]) -> (r: Result<u32, String>)
    ensures
        match r {
            Ok(n) => stream_id_meaning(payload@) == Ok::<u32, Seq<char>>(n),
            Err(e) => stream_id_meaning(payload@) == Err::<u32, Seq<char>>(e@),
        },
{
    if payload.len() == 0 {
        return Ok(1);
    }
    let raw = match decode_utf8(payload) {
        Some(t) => t,
        None => return Err(String::from_str("invalid stream payload")),
    };
    let t = trim(&raw);
    if t.len() == 0 {
        return Ok(1);
    }
    if let Some((k, v)) = split_once(&t, '=') {
        if chars_eq_str(&k, "stream_id") {
            return match parse_u32(&v) {
                Some(n) => Ok(n),
                None => Err(String::from_str("invalid stream_id")),
            };
        }
    }
    match parse_u32(&t) {
        Some(n) => Ok(n),
        None => Err(String::from_str("stream payload expects stream_id or stream_id=<id>")),
    }
}

// ---------------------------------------------------------------------------
// SetStreamConfig
// ---------------------------------------------------------------------------
/// A stream configuration change: the stream, and the settings to replace.
pub struct SetStreamConfigPayload {
    pub stream_id: u32,
    pub display: Option<String>,
    pub bind_addr: Option<String>,
    pub target_addr: Option<String>,
    pub prefer_vaapi: Option<bool>,
}

/// The settings read so far from a configuration payload.
pub struct ConfigFields {
    pub stream_id: Option<u32>,
    pub display: Option<Seq<char>>,
    pub bind_addr: Option<Seq<char>>,
    pub target_addr: Option<Seq<char>>,
    pub prefer_vaapi: Option<bool>,
}

pub open spec fn no_fields() -> ConfigFields {
    ConfigFields {
        stream_id: None,
        display: None,
        bind_addr: None,
        target_addr: None,
        prefer_vaapi: None,
    }
}

pub open spec fn opt_str(v: Option<String>) -> Option<Seq<char>> {
    match v {
        Some(s) => Some(s@),
        None => None,
    }
}

impl View for SetStreamConfigPayload {
    type V = ConfigFields;

    open spec fn view(&self) -> ConfigFields {
        ConfigFields {
            stream_id: Some(self.stream_id),
            display: opt_str(self.display),
            bind_addr: opt_str(self.bind_addr),
            target_addr: opt_str(self.target_addr),
            prefer_vaapi: self.prefer_vaapi,
        }
    }
}

pub open spec fn is_true_word(v: Seq<char>) -> bool {
    v == "true"@ || v == "1"@ || v == "yes"@
}

pub open spec fn is_false_word(v: Seq<char>) -> bool {
    v == "false"@ || v == "0"@ || v == "no"@
}

/// One `key=value` line applied to the settings read so far; a later line
/// replaces what an earlier one set.
pub open spec fn config_step(acc: ConfigFields, line: Seq<char>) -> Result<ConfigFields, Seq<char>> {
    let t = text::spec_trim(line);
    if t.len() == 0 {
        Ok(acc)
    } else {
        match text::spec_split_once(t, '=') {
            None => Err("set stream payload expects key=value lines"@),
            Some((k, v)) => if k == "stream_id"@ {
                match text::spec_parse_u32(v) {
                    Some(n) => Ok(ConfigFields { stream_id: Some(n as u32), ..acc }),
                    None => Err("invalid stream_id"@),
                }
            } else if k == "display"@ {
                Ok(ConfigFields { display: Some(v), ..acc })
            } else if k == "bind_addr"@ {
                Ok(ConfigFields { bind_addr: Some(v), ..acc })
            } else if k == "target_addr"@ {
                Ok(ConfigFields { target_addr: Some(v), ..acc })
            } else if k == "prefer_vaapi"@ {
                if is_true_word(v) {
                    Ok(ConfigFields { prefer_vaapi: Some(true), ..acc })
                } else if is_false_word(v) {
                    Ok(ConfigFields { prefer_vaapi: Some(false), ..acc })
                } else {
                    Err("invalid prefer_vaapi"@)
                }
            } else {
                Err("unknown key in stream config payload: "@ + k)
            },
        }
    }
}

/// A `prefer_vaapi=` line sets the preference, whatever came before it: `true`,
/// `1` and `yes` ask for VAAPI, `false`, `0` and `no` for the software encoder.
pub proof fn lemma_prefer_vaapi_words(acc: ConfigFields, w: Seq<char>)
    requires
        w == "true"@ || w == "1"@ || w == "yes"@ || w == "false"@ || w == "0"@ || w == "no"@,
    ensures
        config_step(acc, "prefer_vaapi="@ + w) == Ok::<ConfigFields, Seq<char>>(
            ConfigFields { prefer_vaapi: Some(w == "true"@ || w == "1"@ || w == "yes"@), ..acc },
        ),
{
    reveal_strlit("prefer_vaapi=");
    reveal_strlit("prefer_vaapi");
    reveal_strlit("stream_id");
    reveal_strlit("display");
    reveal_strlit("bind_addr");
    reveal_strlit("target_addr");
    reveal_strlit("true");
    reveal_strlit("1");
    reveal_strlit("yes");
    reveal_strlit("false");
    reveal_strlit("0");
    reveal_strlit("no");
    let line = "prefer_vaapi="@ + w;
    assert(line[0] == 'p');
    assert(!text::is_ws(line[0]));
    assert(text::trim_start(line) == line);
    assert(line.last() == w.last());
    assert(!text::is_ws(line.last()));
    assert(text::trim_end(line) == line);
    assert(text::spec_trim(line) == line);
    assert forall|k: int| 0 <= k < 12 implies line[k] != '=' by {}
    text::lemma_split_once_at(line, '=', 12);
    assert(line.take(12) =~= "prefer_vaapi"@);
    assert(line.skip(13) =~= w);
}

/// A `display=`, `bind_addr=` or `target_addr=` line sets that setting to the
/// text after the first `=`, whatever came before it, where the line does not
/// end in white space.
pub proof fn lemma_address_lines(acc: ConfigFields, key: Seq<char>, v: Seq<char>)
    requires
        key == "display"@ || key == "bind_addr"@ || key == "target_addr"@,
        v.len() > 0 ==> !text::is_ws(v.last()),
    ensures
        key == "display"@ ==> config_step(acc, key + "="@ + v) == Ok::<ConfigFields, Seq<char>>(
            ConfigFields { display: Some(v), ..acc },
        ),
        key == "bind_addr"@ ==> config_step(acc, key + "="@ + v) == Ok::<ConfigFields, Seq<char>>(
            ConfigFields { bind_addr: Some(v), ..acc },
        ),
        key == "target_addr"@ ==> config_step(acc, key + "="@ + v) == Ok::<ConfigFields, Seq<char>>(
            ConfigFields { target_addr: Some(v), ..acc },
        ),
{
    reveal_strlit("=");
    reveal_strlit("stream_id");
    reveal_strlit("display");
    reveal_strlit("bind_addr");
    reveal_strlit("target_addr");
    let line = key + "="@ + v;
    assert(line[0] == key[0]);
    assert(!text::is_ws(line[0]));
    assert(text::trim_start(line) == line);
    if v.len() > 0 {
        assert(line.last() == v.last());
    } else {
        assert(line.last() == '=');
    }
    assert(text::trim_end(line) == line);
    assert(text::spec_trim(line) == line);
    assert forall|k: int| 0 <= k < key.len() implies line[k] != '=' by {
        assert(line[k] == key[k]);
    }
    text::lemma_split_once_at(line, '=', key.len() as int);
    assert(line.take(key.len() as int) =~= key);
    assert(line.skip(key.len() as int + 1) =~= v);
    assert("display"@[0] != "stream_id"@[0]);
    assert("bind_addr"@[0] != "stream_id"@[0]);
    assert("target_addr"@[0] != "stream_id"@[0]);
}

/// The settings of all lines, or the error of the first bad line.
pub open spec fn config_fields(ls: Seq<Seq<char>>) -> Result<ConfigFields, Seq<char>>
    decreases ls.len(),
{
    if ls.len() == 0 {
        Ok(no_fields())
    } else {
        match config_fields(ls.drop_last()) {
            Err(e) => Err(e),
            Ok(acc) => config_step(acc, ls.last()),
        }
    }
}

/// The meaning of a `SetStreamConfig` payload: UTF-8 `key=value` lines that
/// must name the stream.
pub open spec fn stream_config_meaning(p: Seq<u8>) -> Result<ConfigFields, Seq<char>> {
    match text::decode(p) {
        None => Err("invalid set stream payload"@),
        Some(raw) => match config_fields(text::spec_lines(raw)) {
            Err(e) => Err(e),
            Ok(acc) => if acc.stream_id is None {
                Err("stream_id is required"@)
            } else {
                Ok(acc)
            },
        },
    }
}

pub struct ConfigAcc {
    pub stream_id: Option<u32>,
    pub display: Option<String>,
    pub bind_addr: Option<String>,
    pub target_addr: Option<String>,
    pub prefer_vaapi: Option<bool>,
}

impl View for ConfigAcc {
    type V = ConfigFields;

    open spec fn view(&self) -> ConfigFields {
        ConfigFields {
            stream_id: self.stream_id,
            display: opt_str(self.display),
            bind_addr: opt_str(self.bind_addr),
            target_addr: opt_str(self.target_addr),
            prefer_vaapi: self.prefer_vaapi,
        }
    }
}

fn true_word(v: &[char]) -> (r: bool)
    ensures
        r == is_true_word(v@),
{
    chars_eq_str(v, "true") || chars_eq_str(v, "1") || chars_eq_str(v, "yes")
}

fn false_word(v: &[char]) -> (r: bool)
    ensures
        r == is_false_word(v@),
{
    chars_eq_str(v, "false") || chars_eq_str(v, "0") || chars_eq_str(v, "no")
}

fn apply_config_line(acc: &mut ConfigAcc, line: &[char]) -> (r: Result<(), String>)
    ensures
        match r {
            Ok(()) => config_step(old(acc)@, line@) == Ok::<ConfigFields, Seq<char>>(final(acc)@),
            Err(e) => config_step(old(acc)@, line@) == Err::<ConfigFields, Seq<char>>(e@),
        },
{
    let t = trim(line);
    if t.len() == 0 {
        return Ok(());
    }
    let (k, v) = match split_once(&t, '=') {
        Some(p) => p,
        None => return Err(String::from_str("set stream payload expects key=value lines")),
    };
    if chars_eq_str(&k, "stream_id") {
        match parse_u32(&v) {
            Some(n) => {
                acc.stream_id = Some(n);
                Ok(())
            },
            None => Err(String::from_str("invalid stream_id")),
        }
    } else if chars_eq_str(&k, "display") {
        acc.display = Some(string_of(&v));
        Ok(())
    } else if chars_eq_str(&k, "bind_addr") {
        acc.bind_addr = Some(string_of(&v));
        Ok(())
    } else if chars_eq_str(&k, "target_addr") {
        acc.target_addr = Some(string_of(&v));
        Ok(())
    } else if chars_eq_str(&k, "prefer_vaapi") {
        if true_word(&v) {
            acc.prefer_vaapi = Some(true);
            Ok(())
        } else if false_word(&v) {
            acc.prefer_vaapi = Some(false);
            Ok(())
        } else {
            Err(String::from_str("invalid prefer_vaapi"))
        }
    } else {
        let mut msg: Vec<char> = Vec::new();
        text::push_str(&mut msg, "unknown key in stream config payload: ");
        text::push_chars(&mut msg, &k);
        Err(string_of(&msg))
    }
}

proof fn lemma_config_error_sticks(ls: Seq<Seq<char>>, k: int)
    requires
        0 < k <= ls.len(),
        config_fields(ls.take(k)) is Err,
    ensures
        config_fields(ls) == config_fields(ls.take(k)),
    decreases ls.len() - k,
{
    if k < ls.len() {
        assert(ls.take(k + 1).drop_last() =~= ls.take(k));
        lemma_config_error_sticks(ls, k + 1);
    } else {
        assert(ls.take(k) =~= ls);
    }
}

/// Reads a `SetStreamConfig` payload.
pub fn parse_set_stream_config_payload(payload: &[u8]) -> (r: Result<SetStreamConfigPayload, String>)
    ensures
        match r {
            Ok(c) => stream_config_meaning(payload@) == Ok::<ConfigFields, Seq<char>>(c@),
            Err(e) => stream_config_meaning(payload@) == Err::<ConfigFields, Seq<char>>(e@),
        },
{
    let raw = match decode_utf8(payload) {
        Some(t) => t,
        None => return Err(String::from_str("invalid set stream payload")),
    };
    let ls = lines(&raw);
    let ghost lv = text::views(ls@);
    let mut acc = ConfigAcc {
        stream_id: None,
        display: None,
        bind_addr: None,
        target_addr: None,
        prefer_vaapi: None,
    };
    assert(lv.take(0) =~= Seq::<Seq<char>>::empty());
    for i in 0..ls.len()
        invariant
            lv == text::views(ls@),
            lv == text::spec_lines(raw@),
            text::decode(payload@) == Some(raw@),
            config_fields(lv.take(i as int)) == Ok::<ConfigFields, Seq<char>>(acc@),
    {
        assert(lv.take(i + 1).drop_last() =~= lv.take(i as int));
        assert(lv.take(i + 1).last() == ls@[i as int]@);
        match apply_config_line(&mut acc, &ls[i]) {
            Ok(()) => {},
            Err(e) => {
                assert(config_fields(lv.take(i + 1)) == Err::<ConfigFields, Seq<char>>(e@));
                proof {
                    lemma_config_error_sticks(lv, i + 1);
                }
                return Err(e);
            },
        }
    }
    assert(lv.take(ls@.len() as int) =~= lv);
    match acc.stream_id {
        None => Err(String::from_str("stream_id is required")),
        Some(stream_id) => Ok(
            SetStreamConfigPayload {
                stream_id,
                display: acc.display,
                bind_addr: acc.bind_addr,
                target_addr: acc.target_addr,
                prefer_vaapi: acc.prefer_vaapi,
            },
        ),
    }
}

// ---------------------------------------------------------------------------
// AddVirtualDisplay / RemoveVirtualDisplay
// ---------------------------------------------------------------------------
/// The display an `AddVirtualDisplay` payload `id,width,height,x,y` asks for, enabled.
pub open spec fn add_display_meaning(p: Seq<u8>) -> Result<VirtualDisplayView, Seq<char>> {
    match text::decode(p) {
        None => Err("invalid add display payload"@),
        Some(raw) => {
            let parts = text::spec_split(raw, ',');
            if parts.len() != 5 {
                Err("add payload format: id,width,height,x,y"@)
            } else {
                match text::spec_parse_u32(parts[1]) {
                    None => Err("invalid width"@),
                    Some(w) => match text::spec_parse_u32(parts[2]) {
                        None => Err("invalid height"@),
                        Some(h) => match text::spec_parse_i32(parts[3]) {
                            None => Err("invalid x"@),
                            Some(x) => match text::spec_parse_i32(parts[4]) {
                                None => Err("invalid y"@),
                                Some(y) => Ok(
                                    VirtualDisplayView {
                                        id: parts[0],
                                        width: w as u32,
                                        height: h as u32,
                                        x: x as i32,
                                        y: y as i32,
                                        enabled: true,
                                    },
                                ),
                            },
                        },
                    },
                }
            }
        },
    }
}

/// Reads an `AddVirtualDisplay` payload.
pub fn parse_add_display_payload(payload: &[u8]) -> (r: Result<VirtualDisplay, String>)
    ensures
        match r {
            Ok(d) => add_display_meaning(payload@) == Ok::<VirtualDisplayView, Seq<char>>(d@),
            Err(e) => add_display_meaning(payload@) == Err::<VirtualDisplayView, Seq<char>>(e@),
        },
{
    let raw = match decode_utf8(payload) {
        Some(t) => t,
        None => return Err(String::from_str("invalid add display payload")),
    };
    let parts = split(&raw, ',');
    if parts.len() != 5 {
        return Err(String::from_str("add payload format: id,width,height,x,y"));
    }
    let ghost pv = text::views(parts@);
    assert(pv[0] == parts@[0]@ && pv[1] == parts@[1]@ && pv[2] == parts@[2]@ && pv[3]
        == parts@[3]@ && pv[4] == parts@[4]@);
    let width = match parse_u32(&parts[1]) {
        Some(v) => v,
        None => return Err(String::from_str("invalid width")),
    };
    let height = match parse_u32(&parts[2]) {
        Some(v) => v,
        None => return Err(String::from_str("invalid height")),
    };
    let x = match parse_i32(&parts[3]) {
        Some(v) => v,
        None => return Err(String::from_str("invalid x")),
    };
    let y = match parse_i32(&parts[4]) {
        Some(v) => v,
        None => return Err(String::from_str("invalid y")),
    };
    Ok(VirtualDisplay { id: string_of(&parts[0]), width, height, x, y, enabled: true })
}

/// The display id a `RemoveVirtualDisplay` payload names, trimmed.
pub open spec fn remove_display_meaning(p: Seq<u8>) -> Result<Seq<char>, Seq<char>> {
    match text::decode(p) {
        None => Err("invalid remove display payload"@),
        Some(raw) => {
            let id = text::spec_trim(raw);
            if id.len() == 0 {
                Err("display id required"@)
            } else {
                Ok(id)
            }
        },
    }
}

/// Reads a `RemoveVirtualDisplay` payload.
pub fn parse_remove_display_payload(payload: &[u8]) -> (r: Result<String, String>)
    ensures
        match r {
            Ok(id) => remove_display_meaning(payload@) == Ok::<Seq<char>, Seq<char>>(id@),
            Err(e) => remove_display_meaning(payload@) == Err::<Seq<char>, Seq<char>>(e@),
        },
{
    let raw = match decode_utf8(payload) {
        Some(t) => t,
        None => return Err(String::from_str("invalid remove display payload")),
    };
    let id = trim(&raw);
    if id.len() == 0 {
        return Err(String::from_str("display id required"));
    }
    Ok(string_of(&id))
}

// ---------------------------------------------------------------------------
// The stream list
// ---------------------------------------------------------------------------
pub open spec fn is_running_word(v: Seq<char>) -> bool {
    v == "true"@ || v == "1"@ || v == "yes"@
}

/// A line of the stream list that shows a running stream on display `id`.
pub open spec fn line_uses_display(line: Seq<char>, id: Seq<char>) -> bool {
    let t = text::spec_trim(line);
    let parts = text::spec_split(t, ',');
    &&& !(t.len() == 0 || text::starts_with(t, "protocol="@) || t == "streams:"@)
    &&& parts.len() >= 6
    &&& is_running_word(parts[5])
    &&& parts[1] == id
}

/// Some stream of the list runs on display `id`.
pub open spec fn display_in_use(payload: Seq<char>, id: Seq<char>) -> bool {
    exists|i: int|
        0 <= i < text::spec_lines(payload).len() && #[trigger] line_uses_display(
            text::spec_lines(payload)[i],
            id,
        )
}

fn uses_display(line: &[char], id: &[char]) -> (r: bool)
    ensures
        r == line_uses_display(line@, id@),
{
    let t = trim(line);
    let parts = split(&t, ',');
    if t.len() == 0 || starts_with_chars(&t, &chars_of("protocol=")) || chars_eq_str(&t, "streams:") {
        return false;
    }
    if parts.len() < 6 {
        return false;
    }
    let ghost pv = text::views(parts@);
    assert(pv[5] == parts@[5]@ && pv[1] == parts@[1]@);
    let p5 = &parts[5];
    let running = chars_eq_str(p5, "true") || chars_eq_str(p5, "1") || chars_eq_str(p5, "yes");
    running && text::chars_eq(&parts[1], id)
}

/// Whether the stream list shows a running stream on the display.
pub fn is_display_used_by_running_stream(payload: &str, display_id: &str) -> (r: bool)
    ensures
        r == display_in_use(payload@, display_id@),
{
    let cs = chars_of(payload);
    let id = chars_of(display_id);
    let ls = lines(&cs);
    let ghost lv = text::views(ls@);
    for i in 0..ls.len()
        invariant
            lv == text::views(ls@),
            lv == text::spec_lines(payload@),
            id@ == display_id@,
            forall|k: int| 0 <= k < i ==> !#[trigger] line_uses_display(lv[k], display_id@),
    {
        assert(lv[i as int] == ls@[i as int]@);
        if uses_display(&ls[i], &id) {
            return true;
        }
    }
    false
}

} // verus!
