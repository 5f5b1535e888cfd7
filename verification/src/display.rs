//! Displays: reading `xrandr --query` output, the persisted virtual display
//! list, and the text reports and protocol payloads about displays.
use vstd::prelude::*;

use crate::text;
use crate::text::{
    chars_eq, chars_of, contains_chars, lines, parse_i32, parse_u32, split_once, split_whitespace, str_eq,
    string_of,
};

verus! {

/// A physical output that `xrandr` reports as connected.
#[derive(Debug, Clone)]
pub struct DisplayInfo {
    pub id: String,
    pub name: String,
    pub primary: bool,
    pub connected: bool,
    pub width: Option<u32>,
    pub height: Option<u32>,
    pub pos_x: Option<i32>,
    pub pos_y: Option<i32>,
}

/// A virtual monitor laid over the X screen.
#[derive(Debug, Clone)]
pub struct VirtualDisplay {
    pub id: String,
    pub width: u32,
    pub height: u32,
    pub x: i32,
    pub y: i32,
    pub enabled: bool,
}

/// What the host offers for creating virtual monitors.
#[derive(Debug, Clone)]
pub struct VirtualBackendStatus {
    pub session_type: String,
    pub display_env: Option<String>,
    pub wayland_display_env: Option<String>,
    pub xrandr_available: bool,
    pub xrandr_query_ok: bool,
    pub xrandr_setmonitor_supported: bool,
    pub vkms_loaded: bool,
}

pub struct DisplayInfoView {
    pub id: Seq<char>,
    pub name: Seq<char>,
    pub primary: bool,
    pub connected: bool,
    pub width: Option<u32>,
    pub height: Option<u32>,
    pub pos_x: Option<i32>,
    pub pos_y: Option<i32>,
}

impl View for DisplayInfo {
    type V = DisplayInfoView;

    open spec fn view(&self) -> DisplayInfoView {
        DisplayInfoView {
            id: self.id@,
            name: self.name@,
            primary: self.primary,
            connected: self.connected,
            width: self.width,
            height: self.height,
            pos_x: self.pos_x,
            pos_y: self.pos_y,
        }
    }
}

pub struct VirtualDisplayView {
    pub id: Seq<char>,
    pub width: u32,
    pub height: u32,
    pub x: i32,
    pub y: i32,
    pub enabled: bool,
}

impl View for VirtualDisplay {
    type V = VirtualDisplayView;

    open spec fn view(&self) -> VirtualDisplayView {
        VirtualDisplayView {
            id: self.id@,
            width: self.width,
            height: self.height,
            x: self.x,
            y: self.y,
            enabled: self.enabled,
        }
    }
}

pub open spec fn display_views(ds: Seq<DisplayInfo>) -> Seq<DisplayInfoView> {
    ds.map_values(|d: DisplayInfo| d@)
}

pub open spec fn virtual_views(ds: Seq<VirtualDisplay>) -> Seq<VirtualDisplayView> {
    ds.map_values(|d: VirtualDisplay| d@)
}

impl DisplayInfo {
    /// A copy with the same fields.
    pub fn duplicate(&self) -> (r: Self)
        ensures
            r@ == self@,
    {
        DisplayInfo {
            id: self.id.clone(),
            name: self.name.clone(),
            primary: self.primary,
            connected: self.connected,
            width: self.width,
            height: self.height,
            pos_x: self.pos_x,
            pos_y: self.pos_y,
        }
    }
}

impl VirtualDisplay {
    /// A copy with the same fields.
    pub fn duplicate(&self) -> (r: Self)
        ensures
            r@ == self@,
    {
        VirtualDisplay {
            id: self.id.clone(),
            width: self.width,
            height: self.height,
            x: self.x,
            y: self.y,
            enabled: self.enabled,
        }
    }
}

// ---------------------------------------------------------------------------
// `xrandr --query`
// ---------------------------------------------------------------------------
/// `WxH+X+Y`, the geometry token of an `xrandr` output line.
pub open spec fn geometry_of(t: Seq<char>) -> Option<(u32, u32, i32, i32)> {
    match text::spec_split_once(t, 'x') {
        None => None,
        Some((w, rest)) => match text::spec_split_once(rest, '+') {
            None => None,
            Some((h, rest2)) => match text::spec_split_once(rest2, '+') {
                None => None,
                Some((xs, ys)) => match (
                    text::spec_parse_u32(w),
                    text::spec_parse_u32(h),
                    text::spec_parse_i32(xs),
                    text::spec_parse_i32(ys),
                ) {
                    (Some(a), Some(b), Some(c), Some(d)) => Some(
                        (a as u32, b as u32, c as i32, d as i32),
                    ),
                    _ => None,
                },
            },
        },
    }
}

/// Reads a `WxH+X+Y` geometry.
pub fn parse_geometry(token: &[char]) -> (r: Option<(u32, u32, i32, i32)>)
    ensures
        r == geometry_of(token@),
{
    let (w_str, rest) = match split_once(token, 'x') {
        Some(p) => p,
        None => return None,
    };
    let (h_str, rest2) = match split_once(&rest, '+') {
        Some(p) => p,
        None => return None,
    };
    let (x_str, y_str) = match split_once(&rest2, '+') {
        Some(p) => p,
        None => return None,
    };
    let width = parse_u32(&w_str);
    let height = parse_u32(&h_str);
    let pos_x = parse_i32(&x_str);
    let pos_y = parse_i32(&y_str);
    match (width, height, pos_x, pos_y) {
        (Some(a), Some(b), Some(c), Some(d)) => Some((a, b, c, d)),
        _ => None,
    }
}

/// The first token that is a geometry.
pub open spec fn first_geometry(tokens: Seq<Seq<char>>) -> Option<(u32, u32, i32, i32)>
    decreases tokens.len(),
{
    if tokens.len() == 0 {
        None
    } else {
        match geometry_of(tokens[0]) {
            Some(g) => Some(g),
            None => first_geometry(tokens.drop_first()),
        }
    }
}

/// The display an `xrandr` line describes: a line that holds ` connected`, named
/// by its first word, primary when a word is `primary`, placed by its first
/// geometry word.
pub open spec fn display_of_line(line: Seq<char>) -> Option<DisplayInfoView> {
    let tokens = text::words(line);
    if !text::contains_seq(line, " connected"@) || tokens.len() == 0 {
        None
    } else {
        let g = first_geometry(tokens);
        Some(
            DisplayInfoView {
                id: tokens[0],
                name: tokens[0],
                primary: tokens.contains("primary"@),
                connected: true,
                width: match g {
                    Some(v) => Some(v.0),
                    None => None,
                },
                height: match g {
                    Some(v) => Some(v.1),
                    None => None,
                },
                pos_x: match g {
                    Some(v) => Some(v.2),
                    None => None,
                },
                pos_y: match g {
                    Some(v) => Some(v.3),
                    None => None,
                },
            },
        )
    }
}

/// The displays of the lines, in order.
pub open spec fn displays_of_lines(ls: Seq<Seq<char>>) -> Seq<DisplayInfoView>
    decreases ls.len(),
{
    if ls.len() == 0 {
        Seq::empty()
    } else {
        let init = displays_of_lines(ls.drop_last());
        match display_of_line(ls.last()) {
            Some(d) => init.push(d),
            None => init,
        }
    }
}

fn first_geometry_of(tokens: &Vec<Vec<char>>) -> (r: Option<(u32, u32, i32, i32)>)
    ensures
        r == first_geometry(text::views(tokens@)),
{
    let ghost ts = text::views(tokens@);
    assert(ts.skip(0) =~= ts);
    let mut i: usize = 0;
    while i < tokens.len()
        invariant
            i <= tokens@.len(),
            ts == text::views(tokens@),
            first_geometry(ts) == first_geometry(ts.skip(i as int)),
        decreases tokens@.len() - i,
    {
        assert(ts.skip(i as int)[0] == tokens@[i as int]@);
        assert(ts.skip(i as int).drop_first() =~= ts.skip(i + 1));
        if let Some(g) = parse_geometry(&tokens[i]) {
            return Some(g);
        }
        i = i + 1;
    }
    assert(ts.skip(i as int) =~= Seq::<Seq<char>>::empty());
    None
}

fn contains_word(tokens: &Vec<Vec<char>>, w: &str) -> (r: bool)
    ensures
        r == text::views(tokens@).contains(w@),
{
    let wc = chars_of(w);
    let mut i: usize = 0;
    while i < tokens.len()
        invariant
            i <= tokens@.len(),
            wc@ == w@,
            forall|k: int| 0 <= k < i ==> text::views(tokens@)[k] != w@,
        decreases tokens@.len() - i,
    {
        if chars_eq(&tokens[i], &wc) {
            assert(text::views(tokens@)[i as int] == w@);
            return true;
        }
        i = i + 1;
    }
    false
}

/// The display of one `xrandr` line, if it describes a connected output.
pub fn parse_xrandr_line(line: &[char]) -> (r: Option<DisplayInfo>)
    ensures
        match r {
            Some(d) => display_of_line(line@) == Some(d@),
            None => display_of_line(line@) is None,
        },
{
    let marker = chars_of(" connected");
    if !contains_chars(line, &marker) {
        return None;
    }
    let tokens = split_whitespace(line);
    if tokens.len() == 0 {
        return None;
    }
    let name = string_of(&tokens[0]);
    let primary = contains_word(&tokens, "primary");
    let g = first_geometry_of(&tokens);
    let (width, height, pos_x, pos_y) = match g {
        Some((w, h, x, y)) => (Some(w), Some(h), Some(x), Some(y)),
        None => (None, None, None, None),
    };
    Some(
        DisplayInfo {
            id: name.clone(),
            name,
            primary,
            connected: true,
            width,
            height,
            pos_x,
            pos_y,
        },
    )
}

/// The connected outputs that `xrandr --query` lists, in order.
pub fn parse_xrandr_query(text: &str) -> (out: Vec<DisplayInfo>)
    ensures
        display_views(out@) == displays_of_lines(text::spec_lines(text@)),
{
    let cs = chars_of(text);
    let ls = lines(&cs);
    let ghost lv = text::views(ls@);
    let mut out: Vec<DisplayInfo> = Vec::new();
    for i in 0..ls.len()
        invariant
            lv == text::views(ls@),
            lv == text::spec_lines(text@),
            display_views(out@) == displays_of_lines(lv.take(i as int)),
    {
        assert(lv.take(i + 1).drop_last() =~= lv.take(i as int));
        assert(lv.take(i + 1).last() == ls@[i as int]@);
        match parse_xrandr_line(&ls[i]) {
            Some(d) => {
                out.push(d);
                assert(display_views(out@) =~= displays_of_lines(lv.take(i + 1)));
            },
            None => {
                assert(display_views(out@) =~= displays_of_lines(lv.take(i + 1)));
            },
        }
    }
    assert(lv.take(ls@.len() as int) =~= lv);
    out
}

/// The one display assumed where `xrandr` reports none: the `DISPLAY` of the
/// environment, `:0` without one.
pub open spec fn fallback_view(display_env: Option<Seq<char>>) -> DisplayInfoView {
    let name = match display_env {
        Some(n) => n,
        None => ":0"@,
    };
    DisplayInfoView {
        id: name,
        name,
        primary: true,
        connected: true,
        width: None,
        height: None,
        pos_x: None,
        pos_y: None,
    }
}

pub open spec fn opt_view(s: Option<String>) -> Option<Seq<char>> {
    match s {
        Some(v) => Some(v@),
        None => None,
    }
}

/// The displays to report: those `xrandr --query` lists, or the fallback display
/// where the query did not run or listed none.
pub fn select_displays(query: Option<&str>, display_env: Option<String>) -> (out: Vec<
    DisplayInfo,
>)
    ensures
        display_views(out@) == match query {
            Some(t) => if displays_of_lines(text::spec_lines(t@)).len() > 0 {
                displays_of_lines(text::spec_lines(t@))
            } else {
                seq![fallback_view(opt_view(display_env))]
            },
            None => seq![fallback_view(opt_view(display_env))],
        },
{
    if let Some(text) = query {
        let parsed = parse_xrandr_query(text);
        if parsed.len() > 0 {
            return parsed;
        }
    }
    let name = match display_env {
        Some(n) => n,
        None => String::from_str(":0"),
    };
    let mut out: Vec<DisplayInfo> = Vec::new();
    out.push(
        DisplayInfo {
            id: name.clone(),
            name,
            primary: true,
            connected: true,
            width: None,
            height: None,
            pos_x: None,
            pos_y: None,
        },
    );
    assert(display_views(out@) =~= seq![fallback_view(opt_view(display_env))]);
    out
}

// ---------------------------------------------------------------------------
// Reports
// ---------------------------------------------------------------------------
/// `WxH+X+Y` where all four are known, `unknown` otherwise.
pub open spec fn geometry_text(d: DisplayInfoView) -> Seq<char> {
    match (d.width, d.height, d.pos_x, d.pos_y) {
        (Some(w), Some(h), Some(x), Some(y)) => text::dec(w as nat) + "x"@ + text::dec(h as nat)
            + "+"@ + text::dec_int(x as int) + "+"@ + text::dec_int(y as int),
        _ => "unknown"@,
    }
}

/// One row of the display report: id, name, primary, connected and geometry, tab-separated.
pub open spec fn display_row(d: DisplayInfoView) -> Seq<char> {
    d.id + "\t"@ + d.name + "\t"@ + text::bool_text(d.primary) + "\t"@ + text::bool_text(
        d.connected,
    ) + "\t"@ + geometry_text(d) + "\n"@
}

pub open spec fn display_rows(ds: Seq<DisplayInfoView>) -> Seq<char>
    decreases ds.len(),
{
    if ds.len() == 0 {
        Seq::empty()
    } else {
        display_rows(ds.drop_last()) + display_row(ds.last())
    }
}

/// The display report that `--list-displays` prints.
pub open spec fn displays_report(ds: Seq<DisplayInfoView>) -> Seq<char> {
    "Detected displays:\n"@ + "id\tname\tprimary\tconnected\tgeometry\n"@ + display_rows(ds)
}

fn push_geometry(out: &mut Vec<char>, d: &DisplayInfo)
    ensures
        final(out)@ == old(out)@ + geometry_text(d@),
{
    let ghost start = out@;
    match (d.width, d.height, d.pos_x, d.pos_y) {
        (Some(w), Some(h), Some(x), Some(y)) => {
            text::push_dec(out, w as u64);
            text::push_str(out, "x");
            text::push_dec(out, h as u64);
            text::push_str(out, "+");
            text::push_dec_int(out, x as i64);
            text::push_str(out, "+");
            text::push_dec_int(out, y as i64);
        },
        _ => {
            text::push_str(out, "unknown");
        },
    }
    assert(out@ =~= start + geometry_text(d@));
}

fn push_display_row(out: &mut Vec<char>, d: &DisplayInfo)
    ensures
        final(out)@ == old(out)@ + display_row(d@),
{
    let ghost start = out@;
    text::push_str(out, d.id.as_str());
    text::push_str(out, "\t");
    text::push_str(out, d.name.as_str());
    text::push_str(out, "\t");
    text::push_bool(out, d.primary);
    text::push_str(out, "\t");
    text::push_bool(out, d.connected);
    text::push_str(out, "\t");
    push_geometry(out, d);
    text::push_str(out, "\n");
    assert(out@ =~= start + display_row(d@));
}

/// The display report that `--list-displays` prints.
pub fn format_displays(displays: &[DisplayInfo]) -> (out: String)
    ensures
        out@ == displays_report(display_views(displays@)),
{
    let mut cs: Vec<char> = Vec::new();
    text::push_str(&mut cs, "Detected displays:\n");
    text::push_str(&mut cs, "id\tname\tprimary\tconnected\tgeometry\n");
    let ghost head = cs@;
    let ghost dv = display_views(displays@);
    for i in 0..displays.len()
        invariant
            dv == display_views(displays@),
            cs@ == head + display_rows(dv.take(i as int)),
    {
        assert(dv.take(i + 1).drop_last() =~= dv.take(i as int));
        assert(dv.take(i + 1).last() == displays@[i as int]@);
        push_display_row(&mut cs, &displays[i]);
        assert(cs@ =~= head + display_rows(dv.take(i + 1)));
    }
    assert(dv.take(displays@.len() as int) =~= dv);
    assert(cs@ =~= displays_report(dv));
    text::string_of(&cs)
}

/// One row of the virtual display report: id, enabled and `WxH+X+Y`.
pub open spec fn virtual_row(d: VirtualDisplayView) -> Seq<char> {
    d.id + "\t"@ + text::bool_text(d.enabled) + "\t"@ + text::dec(d.width as nat) + "x"@
        + text::dec(d.height as nat) + "+"@ + text::dec_int(d.x as int) + "+"@ + text::dec_int(
        d.y as int,
    ) + "\n"@
}

pub open spec fn virtual_rows(ds: Seq<VirtualDisplayView>) -> Seq<char>
    decreases ds.len(),
{
    if ds.len() == 0 {
        Seq::empty()
    } else {
        virtual_rows(ds.drop_last()) + virtual_row(ds.last())
    }
}

/// The report that `--list-virtual-displays` prints.
pub open spec fn virtual_report(ds: Seq<VirtualDisplayView>) -> Seq<char> {
    if ds.len() == 0 {
        "No virtual displays configured.\n"@
    } else {
        "Configured virtual displays:\n"@ + "id\tenabled\tgeometry\n"@ + virtual_rows(ds)
    }
}

fn push_virtual_row(out: &mut Vec<char>, d: &VirtualDisplay)
    ensures
        final(out)@ == old(out)@ + virtual_row(d@),
{
    let ghost before = out@;
    text::push_str(out, d.id.as_str());
    text::push_str(out, "\t");
    text::push_bool(out, d.enabled);
    text::push_str(out, "\t");
    text::push_dec(out, d.width as u64);
    text::push_str(out, "x");
    text::push_dec(out, d.height as u64);
    text::push_str(out, "+");
    text::push_dec_int(out, d.x as i64);
    text::push_str(out, "+");
    text::push_dec_int(out, d.y as i64);
    text::push_str(out, "\n");
    assert(out@ =~= before + virtual_row(d@));
}

/// The report that `--list-virtual-displays` prints.
pub fn format_virtual_displays(displays: &[VirtualDisplay]) -> (out: String)
    ensures
        out@ == virtual_report(virtual_views(displays@)),
{
    if displays.len() == 0 {
        return String::from_str("No virtual displays configured.\n");
    }
    let mut cs: Vec<char> = Vec::new();
    text::push_str(&mut cs, "Configured virtual displays:\n");
    text::push_str(&mut cs, "id\tenabled\tgeometry\n");
    let ghost head = cs@;
    let ghost dv = virtual_views(displays@);
    for i in 0..displays.len()
        invariant
            dv == virtual_views(displays@),
            cs@ == head + virtual_rows(dv.take(i as int)),
    {
        assert(dv.take(i + 1).drop_last() =~= dv.take(i as int));
        assert(dv.take(i + 1).last() == displays@[i as int]@);
        push_virtual_row(&mut cs, &displays[i]);
        assert(cs@ =~= head + virtual_rows(dv.take(i + 1)));
    }
    assert(dv.take(displays@.len() as int) =~= dv);
    assert(cs@ =~= virtual_report(dv));
    text::string_of(&cs)
}

/// ASCII letters compared without case (`str::eq_ignore_ascii_case`).
pub open spec fn ascii_lower(c: char) -> char {
    if 65 <= (c as u32) <= 90 {
        ((c as u32) + 32) as char
    } else {
        c
    }
}

pub open spec fn eq_ignore_ascii_case(a: Seq<char>, b: Seq<char>) -> bool {
    a.len() == b.len() && forall|i: int| 0 <= i < a.len() ==> ascii_lower(#[trigger] a[i])
        == ascii_lower(b[i])
}

fn lower_char(c: char) -> (r: char)
    ensures
        r == ascii_lower(c),
{
    let u = c as u32;
    if 65 <= u && u <= 90 {
        ((u + 32) as u8) as char
    } else {
        c
    }
}

/// Whether two texts are equal but for the case of ASCII letters.
pub fn chars_eq_ignore_ascii_case(a: &[char], b: &[char]) -> (r: bool)
    ensures
        r == eq_ignore_ascii_case(a@, b@),
{
    if a.len() != b.len() {
        return false;
    }
    for i in 0..a.len()
        invariant
            a@.len() == b@.len(),
            forall|k: int| 0 <= k < i ==> ascii_lower(#[trigger] a@[k]) == ascii_lower(b@[k]),
    {
        if lower_char(a[i]) != lower_char(b[i]) {
            return false;
        }
    }
    true
}

/// Whether the session type names a Wayland session.
pub open spec fn is_wayland(session_type: Seq<char>) -> bool {
    eq_ignore_ascii_case(session_type, "wayland"@)
}

/// `<unset>` for a missing environment value.
pub open spec fn env_text(v: Option<Seq<char>>) -> Seq<char> {
    match v {
        Some(s) => s,
        None => "<unset>"@,
    }
}

/// The note at the end of the backend report, if any.
pub open spec fn backend_note(s: VirtualBackendStatus) -> Seq<char> {
    if is_wayland(s.session_type@) {
        "note=Wayland session detected; xrandr virtual monitors may be unavailable.\n"@
    } else if !s.xrandr_available {
        "note=xrandr not found; install x11-xserver-utils.\n"@
    } else if !s.xrandr_setmonitor_supported {
        "note=this xrandr build does not support --setmonitor.\n"@
    } else {
        Seq::empty()
    }
}

/// The report that `--virtual-backend-status` prints.
pub open spec fn backend_report(s: VirtualBackendStatus) -> Seq<char> {
    "Virtual display backend status:\n"@ + "session_type="@ + s.session_type@ + "\n"@ + "DISPLAY="@
        + env_text(opt_view(s.display_env)) + "\n"@ + "WAYLAND_DISPLAY="@ + env_text(
        opt_view(s.wayland_display_env),
    ) + "\n"@ + "xrandr_available="@ + text::bool_text(s.xrandr_available) + "\n"@
        + "xrandr_query_ok="@ + text::bool_text(s.xrandr_query_ok) + "\n"@
        + "xrandr_setmonitor_supported="@ + text::bool_text(s.xrandr_setmonitor_supported) + "\n"@
        + "vkms_loaded="@ + text::bool_text(s.vkms_loaded) + "\n"@ + "\n"@ + backend_note(s)
}

fn push_env(out: &mut Vec<char>, v: &Option<String>)
    ensures
        final(out)@ == old(out)@ + env_text(opt_view(*v)),
{
    match v {
        Some(s) => text::push_str(out, s.as_str()),
        None => text::push_str(out, "<unset>"),
    }
}

/// The report that `--virtual-backend-status` prints.
pub fn format_virtual_backend_status(status: &VirtualBackendStatus) -> (out: String)
    ensures
        out@ == backend_report(*status),
{
    let mut cs: Vec<char> = Vec::new();
    text::push_str(&mut cs, "Virtual display backend status:\n");
    text::push_str(&mut cs, "session_type=");
    text::push_str(&mut cs, status.session_type.as_str());
    text::push_str(&mut cs, "\n");
    text::push_str(&mut cs, "DISPLAY=");
    push_env(&mut cs, &status.display_env);
    text::push_str(&mut cs, "\n");
    text::push_str(&mut cs, "WAYLAND_DISPLAY=");
    push_env(&mut cs, &status.wayland_display_env);
    text::push_str(&mut cs, "\n");
    text::push_str(&mut cs, "xrandr_available=");
    text::push_bool(&mut cs, status.xrandr_available);
    text::push_str(&mut cs, "\n");
    text::push_str(&mut cs, "xrandr_query_ok=");
    text::push_bool(&mut cs, status.xrandr_query_ok);
    text::push_str(&mut cs, "\n");
    text::push_str(&mut cs, "xrandr_setmonitor_supported=");
    text::push_bool(&mut cs, status.xrandr_setmonitor_supported);
    text::push_str(&mut cs, "\n");
    text::push_str(&mut cs, "vkms_loaded=");
    text::push_bool(&mut cs, status.vkms_loaded);
    text::push_str(&mut cs, "\n");
    text::push_str(&mut cs, "\n");
    let ghost before_note = cs@;
    let session = chars_of(status.session_type.as_str());
    let wayland = chars_of("wayland");
    if chars_eq_ignore_ascii_case(&session, &wayland) {
        text::push_str(
            &mut cs,
            "note=Wayland session detected; xrandr virtual monitors may be unavailable.\n",
        );
    } else if !status.xrandr_available {
        text::push_str(&mut cs, "note=xrandr not found; install x11-xserver-utils.\n");
    } else if !status.xrandr_setmonitor_supported {
        text::push_str(&mut cs, "note=this xrandr build does not support --setmonitor.\n");
    }
    assert(cs@ =~= before_note + backend_note(*status));
    assert(cs@ =~= backend_report(*status));
    text::string_of(&cs)
}

// ---------------------------------------------------------------------------
// The persisted virtual display list
// ---------------------------------------------------------------------------
/// `Invalid <what> at line <n>`.
pub open spec fn line_error(what: Seq<char>, n: nat) -> Seq<char> {
    "Invalid "@ + what + " at line "@ + text::dec(n)
}

/// The words that mark a display enabled.
pub open spec fn is_enabled_word(w: Seq<char>) -> bool {
    w == "1"@ || w == "true"@ || w == "yes"@
}

/// The meaning of line `n` (counted from 1) of the virtual display file: nothing
/// for a blank or `#` line, a display for `id,width,height,x,y,enabled`, or the
/// first field that does not read.
pub open spec fn config_line(line: Seq<char>, n: nat) -> Result<Option<VirtualDisplayView>, Seq<char>> {
    let t = text::spec_trim(line);
    if t.len() == 0 || t[0] == '#' {
        Ok(None)
    } else {
        let p = text::spec_split(t, ',');
        if p.len() != 6 {
            Err(line_error("virtual display config"@, n))
        } else {
            match text::spec_parse_u32(p[1]) {
                None => Err(line_error("width"@, n)),
                Some(w) => match text::spec_parse_u32(p[2]) {
                    None => Err(line_error("height"@, n)),
                    Some(h) => match text::spec_parse_i32(p[3]) {
                        None => Err(line_error("x"@, n)),
                        Some(x) => match text::spec_parse_i32(p[4]) {
                            None => Err(line_error("y"@, n)),
                            Some(y) => Ok(
                                Some(
                                    VirtualDisplayView {
                                        id: p[0],
                                        width: w as u32,
                                        height: h as u32,
                                        x: x as i32,
                                        y: y as i32,
                                        enabled: is_enabled_word(p[5]),
                                    },
                                ),
                            ),
                        },
                    },
                },
            }
        }
    }
}

/// The displays of the file's lines, or the error of the first bad line.
pub open spec fn config_entries(ls: Seq<Seq<char>>) -> Result<Seq<VirtualDisplayView>, Seq<char>>
    decreases ls.len(),
{
    if ls.len() == 0 {
        Ok(Seq::empty())
    } else {
        match config_entries(ls.drop_last()) {
            Err(e) => Err(e),
            Ok(acc) => match config_line(ls.last(), ls.len()) {
                Err(e) => Err(e),
                Ok(None) => Ok(acc),
                Ok(Some(d)) => Ok(acc.push(d)),
            },
        }
    }
}

fn push_line_error(what: &str, n: usize) -> (e: String)
    ensures
        e@ == line_error(what@, n as nat),
{
    let mut cs: Vec<char> = Vec::new();
    text::push_str(&mut cs, "Invalid ");
    text::push_str(&mut cs, what);
    text::push_str(&mut cs, " at line ");
    text::push_dec(&mut cs, n as u64);
    assert(cs@ =~= line_error(what@, n as nat));
    string_of(&cs)
}

fn enabled_word(w: &[char]) -> (r: bool)
    ensures
        r == is_enabled_word(w@),
{
    text::chars_eq_str(w, "1") || text::chars_eq_str(w, "true") || text::chars_eq_str(w, "yes")
}

/// Reads one line of the virtual display file.
pub fn parse_config_line(line: &[char], n: usize) -> (r: Result<Option<VirtualDisplay>, String>)
    ensures
        match r {
            Ok(None) => config_line(line@, n as nat) == Ok::<Option<VirtualDisplayView>, Seq<char>>(None),
            Ok(Some(d)) => config_line(line@, n as nat) == Ok::<Option<VirtualDisplayView>, Seq<char>>(Some(d@)),
            Err(e) => config_line(line@, n as nat) == Err::<Option<VirtualDisplayView>, Seq<char>>(e@),
        },
{
    let t = text::trim(line);
    if t.len() == 0 || t[0] == '#' {
        return Ok(None);
    }
    let p = text::split(&t, ',');
    if p.len() != 6 {
        return Err(push_line_error("virtual display config", n));
    }
    let ghost pv = text::views(p@);
    assert(pv[1] == p@[1]@ && pv[2] == p@[2]@ && pv[3] == p@[3]@ && pv[4] == p@[4]@ && pv[5] == p@[5]@ && pv[0] == p@[0]@);
    let width = match parse_u32(&p[1]) {
        Some(v) => v,
        None => return Err(push_line_error("width", n)),
    };
    let height = match parse_u32(&p[2]) {
        Some(v) => v,
        None => return Err(push_line_error("height", n)),
    };
    let x = match parse_i32(&p[3]) {
        Some(v) => v,
        None => return Err(push_line_error("x", n)),
    };
    let y = match parse_i32(&p[4]) {
        Some(v) => v,
        None => return Err(push_line_error("y", n)),
    };
    let enabled = enabled_word(&p[5]);
    Ok(Some(VirtualDisplay { id: string_of(&p[0]), width, height, x, y, enabled }))
}

/// Reads the virtual display file (`~/.config/parallax/virtual_displays.conf`).
pub fn parse_virtual_config(content: &str) -> (r: Result<Vec<VirtualDisplay>, String>)
    ensures
        match r {
            Ok(ds) => config_entries(text::spec_lines(content@)) == Ok::<Seq<VirtualDisplayView>, Seq<char>>(virtual_views(ds@)),
            Err(e) => config_entries(text::spec_lines(content@)) == Err::<Seq<VirtualDisplayView>, Seq<char>>(e@),
        },
{
    let cs = chars_of(content);
    let ls = lines(&cs);
    let ghost lv = text::views(ls@);
    let mut out: Vec<VirtualDisplay> = Vec::new();
    let n = ls.len();
    assert(lv.take(0) =~= Seq::<Seq<char>>::empty());
    assert(virtual_views(out@) =~= Seq::<VirtualDisplayView>::empty());
    for i in 0..n
        invariant
            n == ls@.len(),
            lv == text::views(ls@),
            lv == text::spec_lines(content@),
            config_entries(lv.take(i as int)) == Ok::<Seq<VirtualDisplayView>, Seq<char>>(virtual_views(out@)),
    {
        assert(lv.take(i + 1).drop_last() =~= lv.take(i as int));
        assert(lv.take(i + 1).last() == ls@[i as int]@);
        assert(lv.take(i + 1).len() == i + 1);
        let ghost acc = virtual_views(out@);
        match parse_config_line(&ls[i], i + 1) {
            Ok(None) => {
                assert(config_entries(lv.take(i + 1)) == Ok::<Seq<VirtualDisplayView>, Seq<char>>(acc));
            },
            Ok(Some(d)) => {
                out.push(d);
                assert(virtual_views(out@) =~= acc.push(d@));
                assert(config_entries(lv.take(i + 1)) == Ok::<Seq<VirtualDisplayView>, Seq<char>>(acc.push(d@)));
            },
            Err(e) => {
                proof {
                    lemma_config_error_sticks(lv, i + 1);
                }
                return Err(e);
            },
        }
    }
    assert(lv.take(n as int) =~= lv);
    Ok(out)
}

proof fn lemma_config_error_sticks(ls: Seq<Seq<char>>, k: int)
    requires
        0 < k <= ls.len(),
        config_entries(ls.take(k)) is Err,
    ensures
        config_entries(ls) == config_entries(ls.take(k)),
    decreases ls.len() - k,
{
    if k < ls.len() {
        assert(ls.take(k + 1).drop_last() =~= ls.take(k));
        lemma_config_error_sticks(ls, k + 1);
    } else {
        assert(ls.take(k) =~= ls);
    }
}

/// One line of the virtual display file.
pub open spec fn config_row(d: VirtualDisplayView) -> Seq<char> {
    d.id + ","@ + text::dec(d.width as nat) + ","@ + text::dec(d.height as nat) + ","@
        + text::dec_int(d.x as int) + ","@ + text::dec_int(d.y as int) + ","@ + (if d.enabled {
        "1"@
    } else {
        "0"@
    }) + "\n"@
}

pub open spec fn config_rows(ds: Seq<VirtualDisplayView>) -> Seq<char>
    decreases ds.len(),
{
    if ds.len() == 0 {
        Seq::empty()
    } else {
        config_rows(ds.drop_last()) + config_row(ds.last())
    }
}

/// The virtual display file for a list of displays.
pub open spec fn config_content(ds: Seq<VirtualDisplayView>) -> Seq<char> {
    "# id,width,height,x,y,enabled\n"@ + config_rows(ds)
}

/// The text of the virtual display file for `displays`.
pub fn virtual_config_content(displays: &[VirtualDisplay]) -> (out: String)
    ensures
        out@ == config_content(virtual_views(displays@)),
{
    let mut cs: Vec<char> = Vec::new();
    text::push_str(&mut cs, "# id,width,height,x,y,enabled\n");
    let ghost head = cs@;
    let ghost dv = virtual_views(displays@);
    for i in 0..displays.len()
        invariant
            dv == virtual_views(displays@),
            cs@ == head + config_rows(dv.take(i as int)),
    {
        assert(dv.take(i + 1).drop_last() =~= dv.take(i as int));
        assert(dv.take(i + 1).last() == displays@[i as int]@);
        push_config_row(&mut cs, &displays[i]);
        assert(cs@ =~= head + config_rows(dv.take(i + 1)));
    }
    assert(dv.take(displays@.len() as int) =~= dv);
    string_of(&cs)
}

/// `W,H,X,Y`: the numbers of a row of the virtual display file.
pub open spec fn config_numbers(d: VirtualDisplayView) -> Seq<char> {
    text::dec(d.width as nat) + ","@ + text::dec(d.height as nat) + ","@ + text::dec_int(d.x as int)
        + ","@ + text::dec_int(d.y as int)
}

fn push_config_numbers(out: &mut Vec<char>, d: &VirtualDisplay)
    ensures
        final(out)@ == old(out)@ + config_numbers(d@),
{
    let ghost before = out@;
    text::push_dec(out, d.width as u64);
    text::push_str(out, ",");
    text::push_dec(out, d.height as u64);
    text::push_str(out, ",");
    text::push_dec_int(out, d.x as i64);
    text::push_str(out, ",");
    text::push_dec_int(out, d.y as i64);
    assert(out@ =~= before + config_numbers(d@));
}

fn push_config_row(out: &mut Vec<char>, d: &VirtualDisplay)
    ensures
        final(out)@ == old(out)@ + config_row(d@),
{
    let ghost before = out@;
    text::push_str(out, d.id.as_str());
    text::push_str(out, ",");
    push_config_numbers(out, d);
    text::push_str(out, ",");
    if d.enabled {
        text::push_str(out, "1");
    } else {
        text::push_str(out, "0");
    }
    text::push_str(out, "\n");
    let ghost flag: Seq<char> = if d.enabled {
        "1"@
    } else {
        "0"@
    };
    assert(out@ =~= before + (d.id@ + ","@ + config_numbers(d@) + ","@ + flag + "\n"@));
    assert(config_row(d@) =~= d.id@ + ","@ + config_numbers(d@) + ","@ + flag + "\n"@);
}

// ---------------------------------------------------------------------------
// Reading back what was written
// ---------------------------------------------------------------------------
/// An id that the virtual display file keeps as it is: no comma or line feed,
/// and not starting with white space or `#`.
pub open spec fn storable_id(id: Seq<char>) -> bool {
    &&& !id.contains(',')
    &&& !id.contains('\n')
    &&& (id.len() > 0 ==> !text::is_ws(id[0]) && id[0] != '#')
}

/// A row of the virtual display file without its line feed.
pub open spec fn row_line(d: VirtualDisplayView) -> Seq<char> {
    d.id + ","@ + text::dec(d.width as nat) + ","@ + text::dec(d.height as nat) + ","@
        + text::dec_int(d.x as int) + ","@ + text::dec_int(d.y as int) + ","@ + (if d.enabled {
        "1"@
    } else {
        "0"@
    })
}

pub open spec fn row_lines(ds: Seq<VirtualDisplayView>) -> Seq<Seq<char>> {
    ds.map_values(|d: VirtualDisplayView| row_line(d))
}

pub open spec fn config_header() -> Seq<char> {
    "# id,width,height,x,y,enabled"@
}

proof fn lemma_row_line_shape(d: VirtualDisplayView)
    requires
        storable_id(d.id),
    ensures
        config_row(d) == row_line(d).push('\n'),
        !row_line(d).contains('\n'),
        row_line(d).len() > 0,
        !text::is_ws(row_line(d)[0]),
        row_line(d)[0] != '#',
        row_line(d).last() == '0' || row_line(d).last() == '1',
{
    reveal_strlit(",");
    reveal_strlit("1");
    reveal_strlit("0");
    reveal_strlit("\n");
    let r = row_line(d);
    assert(config_row(d) =~= r.push('\n'));
    text::lemma_dec_int_has_no(d.width as int, '\n');
    text::lemma_dec_int_has_no(d.height as int, '\n');
    text::lemma_dec_int_has_no(d.x as int, '\n');
    text::lemma_dec_int_has_no(d.y as int, '\n');
    let w = text::dec(d.width as nat);
    let h = text::dec(d.height as nat);
    let x = text::dec_int(d.x as int);
    let y = text::dec_int(d.y as int);
    let f: Seq<char> = if d.enabled {
        "1"@
    } else {
        "0"@
    };
    assert(text::dec_int(d.width as int) == w);
    assert(text::dec_int(d.height as int) == h);
    assert forall|k: int| 0 <= k < r.len() implies r[k] != '\n' by {
        let a = d.id.len() as int;
        let b = a + 1 + w.len();
        let c = b + 1 + h.len();
        let e = c + 1 + x.len();
        let g = e + 1 + y.len();
        if k < a {
            assert(r[k] == d.id[k]);
        } else if a < k < b {
            assert(r[k] == w[k - a - 1]);
        } else if b < k < c {
            assert(r[k] == h[k - b - 1]);
        } else if c < k < e {
            assert(r[k] == x[k - c - 1]);
        } else if e < k < g {
            assert(r[k] == y[k - e - 1]);
        } else if k > g {
            assert(r[k] == f[k - g - 1]);
        }
    }
}

proof fn lemma_six_fields(
    a0: Seq<char>,
    a1: Seq<char>,
    a2: Seq<char>,
    a3: Seq<char>,
    a4: Seq<char>,
    a5: Seq<char>,
)
    ensures
        a0 + ","@ + a1 + ","@ + a2 + ","@ + a3 + ","@ + a4 + ","@ + a5 == text::join_with(
            seq![a0, a1, a2, a3, a4, a5],
            ',',
        ),
{
    reveal_strlit(",");
    let f = seq![a0, a1, a2, a3, a4, a5];
    let g1 = seq![a0];
    let g2 = g1.push(a1);
    let g3 = g2.push(a2);
    let g4 = g3.push(a3);
    let g5 = g4.push(a4);
    assert(g5.push(a5) =~= f);
    assert(text::join_with(g1, ',') == a0);
    text::lemma_join_push(g1, a1, ',');
    text::lemma_join_push(g2, a2, ',');
    text::lemma_join_push(g3, a3, ',');
    text::lemma_join_push(g4, a4, ',');
    text::lemma_join_push(g5, a5, ',');
    let j = a0.push(',') + a1;
    let j = j.push(',') + a2;
    let j = j.push(',') + a3;
    let j = j.push(',') + a4;
    let j = j.push(',') + a5;
    assert(text::join_with(f, ',') == j);
    assert(a0 + ","@ + a1 + ","@ + a2 + ","@ + a3 + ","@ + a4 + ","@ + a5 =~= j);
}

proof fn lemma_row_line_split(d: VirtualDisplayView)
    requires
        storable_id(d.id),
    ensures
        text::spec_split(row_line(d), ',') == seq![
            d.id,
            text::dec(d.width as nat),
            text::dec(d.height as nat),
            text::dec_int(d.x as int),
            text::dec_int(d.y as int),
            if d.enabled {
                "1"@
            } else {
                "0"@
            },
        ],
{
    reveal_strlit("1");
    reveal_strlit("0");
    let w = text::dec(d.width as nat);
    let h = text::dec(d.height as nat);
    let x = text::dec_int(d.x as int);
    let y = text::dec_int(d.y as int);
    let f: Seq<char> = if d.enabled {
        "1"@
    } else {
        "0"@
    };
    assert(text::dec_int(d.width as int) == w);
    assert(text::dec_int(d.height as int) == h);
    text::lemma_dec_int_has_no(d.width as int, ',');
    text::lemma_dec_int_has_no(d.height as int, ',');
    text::lemma_dec_int_has_no(d.x as int, ',');
    text::lemma_dec_int_has_no(d.y as int, ',');
    assert(!f.contains(',')) by {
        if f.contains(',') {
            let k = choose|k: int| 0 <= k < f.len() && f[k] == ',';
            assert(k == 0);
        }
    }
    let ps = seq![d.id, w, h, x, y, f];
    lemma_six_fields(d.id, w, h, x, y, f);
    assert forall|i: int| 0 <= i < ps.len() implies !(#[trigger] ps[i]).contains(',') by {}
    text::lemma_split_join(ps, ',');
}

proof fn lemma_row_line_reads(d: VirtualDisplayView, n: nat)
    requires
        storable_id(d.id),
    ensures
        config_line(row_line(d), n) == Ok::<Option<VirtualDisplayView>, Seq<char>>(Some(d)),
{
    reveal_strlit("1");
    reveal_strlit("0");
    reveal_strlit("true");
    reveal_strlit("yes");
    lemma_row_line_shape(d);
    lemma_row_line_split(d);
    let r = row_line(d);
    assert(text::trim_start(r) == r);
    assert(text::trim_end(r) == r);
    text::lemma_parse_dec(d.width as nat, 0xffff_ffff);
    text::lemma_parse_dec(d.height as nat, 0xffff_ffff);
    text::lemma_parse_dec_int(d.x as int, -0x8000_0000, 0x7fff_ffff);
    text::lemma_parse_dec_int(d.y as int, -0x8000_0000, 0x7fff_ffff);
    let f: Seq<char> = if d.enabled {
        "1"@
    } else {
        "0"@
    };
    assert(is_enabled_word(f) == d.enabled);
}

proof fn lemma_header_split()
    ensures
        config_content(Seq::empty()) == config_header().push('\n'),
        text::spec_split(config_header().push('\n'), '\n') == seq![
            config_header(),
            Seq::<char>::empty(),
        ],
{
    reveal_strlit("# id,width,height,x,y,enabled\n");
    reveal_strlit("# id,width,height,x,y,enabled");
    let hdr = config_header();
    assert(config_content(Seq::empty()) =~= hdr.push('\n'));
    assert(!hdr.contains('\n')) by {
        if hdr.contains('\n') {
            let k = choose|k: int| 0 <= k < hdr.len() && hdr[k] == '\n';
        }
    }
    text::lemma_split_none(hdr, '\n');
    assert(hdr.push('\n').drop_last() =~= hdr);
    assert(seq![hdr].push(Seq::<char>::empty()) =~= seq![hdr, Seq::<char>::empty()]);
}

proof fn lemma_content_split(ds: Seq<VirtualDisplayView>)
    requires
        forall|i: int| 0 <= i < ds.len() ==> storable_id(#[trigger] ds[i].id),
    ensures
        text::spec_split(config_content(ds), '\n') == (seq![config_header()] + row_lines(ds)).push(
            Seq::<char>::empty(),
        ),
        config_content(ds).len() > 0,
        config_content(ds).last() == '\n',
    decreases ds.len(),
{
    let hdr = config_header();
    if ds.len() == 0 {
        lemma_header_split();
        assert(row_lines(ds) =~= Seq::<Seq<char>>::empty());
        assert(seq![hdr] + row_lines(ds) =~= seq![hdr]);
        assert(seq![hdr].push(Seq::<char>::empty()) =~= seq![hdr, Seq::<char>::empty()]);
        assert(ds =~= Seq::<VirtualDisplayView>::empty());
    } else {
        let init = ds.drop_last();
        let d = ds.last();
        assert(storable_id(d.id)) by {
            assert(ds[ds.len() - 1] == d);
        }
        assert forall|i: int| 0 <= i < init.len() implies storable_id(#[trigger] init[i].id) by {
            assert(init[i] == ds[i]);
        }
        lemma_content_split(init);
        lemma_row_line_shape(d);
        let c = config_content(init);
        let r = row_line(d);
        assert(config_content(ds) =~= c + r.push('\n'));
        text::lemma_split_line_step(c, seq![hdr] + row_lines(init), r);
        assert(row_lines(ds) =~= row_lines(init).push(r));
        assert((seq![hdr] + row_lines(init)).push(r) =~= seq![hdr] + row_lines(ds));
    }
}

proof fn lemma_entries_header()
    ensures
        config_entries(seq![config_header()]) == Ok::<Seq<VirtualDisplayView>, Seq<char>>(
            Seq::empty(),
        ),
{
    reveal_strlit("# id,width,height,x,y,enabled");
    let hdr = config_header();
    assert(seq![hdr].drop_last() =~= Seq::<Seq<char>>::empty());
    assert(config_entries(Seq::<Seq<char>>::empty()) == Ok::<Seq<VirtualDisplayView>, Seq<char>>(
        Seq::empty(),
    ));
    assert(seq![hdr].last() == hdr);
    assert(text::trim_start(hdr) == hdr);
    assert(text::trim_end(hdr) == hdr);
    assert(config_line(hdr, 1) == Ok::<Option<VirtualDisplayView>, Seq<char>>(None));
}

proof fn lemma_entries_of_rows(ds: Seq<VirtualDisplayView>)
    requires
        forall|i: int| 0 <= i < ds.len() ==> storable_id(#[trigger] ds[i].id),
    ensures
        config_entries(seq![config_header()] + row_lines(ds)) == Ok::<
            Seq<VirtualDisplayView>,
            Seq<char>,
        >(ds),
    decreases ds.len(),
{
    let hdr = config_header();
    if ds.len() == 0 {
        lemma_entries_header();
        assert(seq![hdr] + row_lines(ds) =~= seq![hdr]);
        assert(ds =~= Seq::<VirtualDisplayView>::empty());
    } else {
        let init = ds.drop_last();
        let d = ds.last();
        assert forall|i: int| 0 <= i < init.len() implies storable_id(#[trigger] init[i].id) by {
            assert(init[i] == ds[i]);
        }
        lemma_entries_of_rows(init);
        let l = seq![hdr] + row_lines(ds);
        assert(l.drop_last() =~= seq![hdr] + row_lines(init));
        assert(storable_id(d.id)) by {
            assert(ds[ds.len() - 1] == d);
        }
        assert(l.last() == row_line(d));
        lemma_row_line_reads(d, l.len());
        assert(config_line(l.last(), l.len()) == Ok::<Option<VirtualDisplayView>, Seq<char>>(Some(d)));
        assert(config_entries(l.drop_last()) == Ok::<Seq<VirtualDisplayView>, Seq<char>>(init));
        assert(init.push(d) =~= ds);
    }
}

/// What the virtual display file holds for a list of displays reads back as
/// the same list, where every id is one the file can keep (no comma or line
/// feed, not starting with white space or `#`).
pub proof fn lemma_virtual_config_read_back(ds: Seq<VirtualDisplayView>)
    requires
        forall|i: int| 0 <= i < ds.len() ==> storable_id(#[trigger] ds[i].id),
    ensures
        config_entries(text::spec_lines(config_content(ds))) == Ok::<
            Seq<VirtualDisplayView>,
            Seq<char>,
        >(ds),
{
    reveal_strlit("# id,width,height,x,y,enabled");
    lemma_content_split(ds);
    let parts = text::spec_split(config_content(ds), '\n');
    let kept = seq![config_header()] + row_lines(ds);
    assert(parts.drop_last() =~= kept);
    assert(parts.last().len() == 0);
    assert forall|i: int| 0 <= i < kept.len() implies text::strip_cr(#[trigger] kept[i]) == kept[i] by {
        if i == 0 {
            assert(kept[0] == config_header());
        } else {
            assert(kept[i] == row_line(ds[i - 1]));
            lemma_row_line_shape(ds[i - 1]);
        }
    }
    assert(text::strip_cr_all(kept) =~= kept);
    lemma_entries_of_rows(ds);
}

/// The displays whose id differs from `id`, in order.
pub open spec fn without_id(ds: Seq<VirtualDisplayView>, id: Seq<char>) -> Seq<VirtualDisplayView>
    decreases ds.len(),
{
    if ds.len() == 0 {
        Seq::empty()
    } else if ds.last().id == id {
        without_id(ds.drop_last(), id)
    } else {
        without_id(ds.drop_last(), id).push(ds.last())
    }
}

/// The list with every display named `id` removed.
pub fn remove_virtual_display(all: &[VirtualDisplay], id: &str) -> (out: Vec<VirtualDisplay>)
    ensures
        virtual_views(out@) == without_id(virtual_views(all@), id@),
{
    let ghost dv = virtual_views(all@);
    let mut out: Vec<VirtualDisplay> = Vec::new();
    for i in 0..all.len()
        invariant
            dv == virtual_views(all@),
            virtual_views(out@) == without_id(dv.take(i as int), id@),
    {
        assert(dv.take(i + 1).drop_last() =~= dv.take(i as int));
        assert(dv.take(i + 1).last() == all@[i as int]@);
        if !str_eq(all[i].id.as_str(), id) {
            out.push(all[i].duplicate());
            assert(virtual_views(out@) =~= without_id(dv.take(i + 1), id@));
        }
    }
    assert(dv.take(all@.len() as int) =~= dv);
    out
}

/// The list with `display` stored, enabled, in place of any display of its id.
pub open spec fn upserted(all: Seq<VirtualDisplayView>, d: VirtualDisplayView) -> Seq<VirtualDisplayView> {
    without_id(all, d.id).push(VirtualDisplayView { enabled: true, ..d })
}

/// The list with `display` stored, enabled, in place of any display of its id
/// (the list that enabling a virtual display writes back).
pub fn upsert_virtual_display(all: &[VirtualDisplay], display: &VirtualDisplay) -> (out: Vec<
    VirtualDisplay,
>)
    ensures
        virtual_views(out@) == upserted(virtual_views(all@), display@),
{
    let mut out = remove_virtual_display(all, display.id.as_str());
    let mut saved = display.duplicate();
    saved.enabled = true;
    out.push(saved);
    assert(virtual_views(out@) =~= upserted(virtual_views(all@), display@));
    out
}

/// After storing a display, the list holds exactly one display of its id: the
/// stored one, enabled; displays of other ids stay, in order.
pub proof fn lemma_upsert_unique(all: Seq<VirtualDisplayView>, d: VirtualDisplayView)
    ensures
        ({
            let r = upserted(all, d);
            &&& r.last() == VirtualDisplayView { enabled: true, ..d }
            &&& forall|i: int| 0 <= i < r.len() - 1 ==> (#[trigger] r[i]).id != d.id
            &&& r.drop_last() == without_id(all, d.id)
        }),
{
    lemma_without_id(all, d.id);
    assert(upserted(all, d).drop_last() =~= without_id(all, d.id));
}

proof fn lemma_without_id(ds: Seq<VirtualDisplayView>, id: Seq<char>)
    ensures
        forall|i: int| 0 <= i < without_id(ds, id).len() ==> (#[trigger] without_id(ds, id)[i]).id != id,
    decreases ds.len(),
{
    if ds.len() > 0 {
        lemma_without_id(ds.drop_last(), id);
        let w = without_id(ds, id);
        let p = without_id(ds.drop_last(), id);
        assert forall|i: int| 0 <= i < w.len() implies (#[trigger] w[i]).id != id by {
            if ds.last().id != id && i == p.len() {
                assert(w[i] == ds.last());
            } else {
                assert(w[i] == p[i]);
            }
        }
    }
}

/// The enabled displays, in order.
pub open spec fn enabled_only(ds: Seq<VirtualDisplayView>) -> Seq<VirtualDisplayView>
    decreases ds.len(),
{
    if ds.len() == 0 {
        Seq::empty()
    } else if ds.last().enabled {
        enabled_only(ds.drop_last()).push(ds.last())
    } else {
        enabled_only(ds.drop_last())
    }
}

/// The persisted displays that start-up applies: the enabled ones, in order.
pub fn displays_to_apply(all: &[VirtualDisplay]) -> (out: Vec<VirtualDisplay>)
    ensures
        virtual_views(out@) == enabled_only(virtual_views(all@)),
{
    let ghost dv = virtual_views(all@);
    let mut out: Vec<VirtualDisplay> = Vec::new();
    for i in 0..all.len()
        invariant
            dv == virtual_views(all@),
            virtual_views(out@) == enabled_only(dv.take(i as int)),
    {
        assert(dv.take(i + 1).drop_last() =~= dv.take(i as int));
        assert(dv.take(i + 1).last() == all@[i as int]@);
        if all[i].enabled {
            out.push(all[i].duplicate());
            assert(virtual_views(out@) =~= enabled_only(dv.take(i + 1)));
        }
    }
    assert(dv.take(all@.len() as int) =~= dv);
    out
}

// ---------------------------------------------------------------------------
// `xrandr --setmonitor`
// ---------------------------------------------------------------------------
/// The geometry argument of `xrandr --setmonitor`: `W/W xH/H +X+Y` without spaces.
pub open spec fn setmonitor_geometry_text(d: VirtualDisplayView) -> Seq<char> {
    text::dec(d.width as nat) + "/"@ + text::dec(d.width as nat) + "x"@ + text::dec(d.height as nat)
        + "/"@ + text::dec(d.height as nat) + "+"@ + text::dec_int(d.x as int) + "+"@ + text::dec_int(
        d.y as int,
    )
}

/// The geometry argument of `xrandr --setmonitor` for a display.
pub fn setmonitor_geometry(display: &VirtualDisplay) -> (out: String)
    ensures
        out@ == setmonitor_geometry_text(display@),
{
    let mut cs: Vec<char> = Vec::new();
    text::push_dec(&mut cs, display.width as u64);
    text::push_str(&mut cs, "/");
    text::push_dec(&mut cs, display.width as u64);
    text::push_str(&mut cs, "x");
    text::push_dec(&mut cs, display.height as u64);
    text::push_str(&mut cs, "/");
    text::push_dec(&mut cs, display.height as u64);
    text::push_str(&mut cs, "+");
    text::push_dec_int(&mut cs, display.x as i64);
    text::push_str(&mut cs, "+");
    text::push_dec_int(&mut cs, display.y as i64);
    assert(cs@ =~= setmonitor_geometry_text(display@));
    string_of(&cs)
}

/// Why the backend cannot create virtual monitors, if it cannot.
pub open spec fn setmonitor_refusal(b: VirtualBackendStatus) -> Option<Seq<char>> {
    if !b.xrandr_available {
        Some("xrandr is not available. Install x11-xserver-utils."@)
    } else if !b.xrandr_setmonitor_supported {
        Some("xrandr does not support --setmonitor on this system."@)
    } else if is_wayland(b.session_type@) {
        Some(
            "Wayland session detected; virtual monitors via xrandr usually require X11 session."@,
        )
    } else {
        None
    }
}

/// Checks that the backend can create virtual monitors.
pub fn check_setmonitor_backend(backend: &VirtualBackendStatus) -> (r: Result<(), String>)
    ensures
        match r {
            Ok(()) => setmonitor_refusal(*backend) is None,
            Err(e) => setmonitor_refusal(*backend) == Some(e@),
        },
{
    if !backend.xrandr_available {
        return Err(String::from_str("xrandr is not available. Install x11-xserver-utils."));
    }
    if !backend.xrandr_setmonitor_supported {
        return Err(String::from_str("xrandr does not support --setmonitor on this system."));
    }
    let session = chars_of(backend.session_type.as_str());
    let wayland = chars_of("wayland");
    if chars_eq_ignore_ascii_case(&session, &wayland) {
        return Err(
            String::from_str(
                "Wayland session detected; virtual monitors via xrandr usually require X11 session.",
            ),
        );
    }
    Ok(())
}

/// The error for a failed `xrandr --setmonitor`, quoting its trimmed error output.
pub open spec fn setmonitor_failure_text(stderr: Seq<char>) -> Seq<char> {
    let t = text::spec_trim(stderr);
    if t.len() == 0 {
        "xrandr --setmonitor failed. Check DISPLAY/X11 session and monitor naming conflicts."@
    } else {
        "xrandr --setmonitor failed: "@ + t
            + ". Check DISPLAY/X11 session and monitor naming conflicts."@
    }
}

/// The error for a failed `xrandr --setmonitor`.
pub fn setmonitor_failure(stderr: &str) -> (out: String)
    ensures
        out@ == setmonitor_failure_text(stderr@),
{
    let t = text::trim(&chars_of(stderr));
    if t.len() == 0 {
        return String::from_str(
            "xrandr --setmonitor failed. Check DISPLAY/X11 session and monitor naming conflicts.",
        );
    }
    let mut cs: Vec<char> = Vec::new();
    text::push_str(&mut cs, "xrandr --setmonitor failed: ");
    text::push_chars(&mut cs, &t);
    text::push_str(&mut cs, ". Check DISPLAY/X11 session and monitor naming conflicts.");
    string_of(&cs)
}

/// The error for a failed `xrandr --delmonitor`.
pub fn delmonitor_failure(id: &str) -> (out: String)
    ensures
        out@ == "xrandr --delmonitor failed for "@ + id@,
{
    let mut cs: Vec<char> = Vec::new();
    text::push_str(&mut cs, "xrandr --delmonitor failed for ");
    text::push_str(&mut cs, id);
    string_of(&cs)
}

// ---------------------------------------------------------------------------
// Display ids chosen for streams
// ---------------------------------------------------------------------------
/// How a display id is judged before any display is looked up: refused when
/// blank, accepted when it names an X11 display (`:N`), else to be looked up.
pub open spec fn display_id_precheck(id: Seq<char>) -> Result<bool, Seq<char>> {
    if text::spec_trim(id).len() == 0 {
        Err("display id is required"@)
    } else if id.len() > 0 && id[0] == ':' {
        Ok(false)
    } else {
        Ok(true)
    }
}

/// Judges a display id before any lookup; `Ok(true)` asks for the lookup.
pub fn precheck_display_id(display_id: &str) -> (r: Result<bool, String>)
    ensures
        match r {
            Ok(b) => display_id_precheck(display_id@) == Ok::<bool, Seq<char>>(b),
            Err(e) => display_id_precheck(display_id@) == Err::<bool, Seq<char>>(e@),
        },
{
    let cs = chars_of(display_id);
    let t = text::trim(&cs);
    if t.len() == 0 {
        return Err(String::from_str("display id is required"));
    }
    if cs.len() > 0 && cs[0] == ':' {
        return Ok(false);
    }
    Ok(true)
}

/// A physical display of that id or name, or an enabled virtual display of that id.
pub open spec fn display_id_known(
    id: Seq<char>,
    physical: Seq<DisplayInfoView>,
    virtuals: Seq<VirtualDisplayView>,
) -> bool {
    ||| exists|i: int| 0 <= i < physical.len() && #[trigger] physical_matches(physical[i], id)
    ||| exists|i: int| 0 <= i < virtuals.len() && #[trigger] virtual_matches(virtuals[i], id)
}

/// A physical display answers to its id and to its name.
pub open spec fn physical_matches(d: DisplayInfoView, id: Seq<char>) -> bool {
    d.id == id || d.name == id
}

/// An enabled virtual display answers to its id.
pub open spec fn virtual_matches(d: VirtualDisplayView, id: Seq<char>) -> bool {
    d.id == id && d.enabled
}


/// Checks that a display id names a known display.
pub fn lookup_display_id(
    display_id: &str,
    physical: &[DisplayInfo],
    virtuals: &[VirtualDisplay],
) -> (r: Result<(), String>)
    ensures
        match r {
            Ok(()) => display_id_known(display_id@, display_views(physical@), virtual_views(virtuals@)),
            Err(e) => !display_id_known(display_id@, display_views(physical@), virtual_views(virtuals@))
                && e@ == "display_id not found"@,
        },
{
    let ghost pv = display_views(physical@);
    let ghost vv = virtual_views(virtuals@);
    for i in 0..physical.len()
        invariant
            pv == display_views(physical@),
            forall|k: int| 0 <= k < i ==> !#[trigger] physical_matches(pv[k], display_id@),
    {
        if str_eq(physical[i].id.as_str(), display_id) || str_eq(physical[i].name.as_str(), display_id) {
            assert(physical_matches(pv[i as int], display_id@));
            return Ok(());
        }
    }
    for i in 0..virtuals.len()
        invariant
            vv == virtual_views(virtuals@),
            forall|k: int| 0 <= k < physical@.len() ==> !#[trigger] physical_matches(pv[k], display_id@),
            pv == display_views(physical@),
            forall|k: int| 0 <= k < i ==> !#[trigger] virtual_matches(vv[k], display_id@),
    {
        if str_eq(virtuals[i].id.as_str(), display_id) && virtuals[i].enabled {
            assert(virtual_matches(vv[i as int], display_id@));
            return Ok(());
        }
    }
    Err(String::from_str("display_id not found"))
}

// ---------------------------------------------------------------------------
// The `Displays` payload
// ---------------------------------------------------------------------------
pub open spec fn or_zero_u32(v: Option<u32>) -> nat {
    match v {
        Some(x) => x as nat,
        None => 0,
    }
}

pub open spec fn or_zero_i32(v: Option<i32>) -> int {
    match v {
        Some(x) => x as int,
        None => 0,
    }
}

/// `id,name,primary,connected,width,height,x,y` with 0 for what is unknown.
pub open spec fn physical_payload_row(d: DisplayInfoView) -> Seq<char> {
    physical_payload_names(d) + payload_numbers(
        or_zero_u32(d.width),
        or_zero_u32(d.height),
        or_zero_i32(d.pos_x),
        or_zero_i32(d.pos_y),
    )
}

pub open spec fn physical_payload_names(d: DisplayInfoView) -> Seq<char> {
    d.id + ","@ + d.name + ","@ + text::bool_text(d.primary) + ","@ + text::bool_text(d.connected)
        + ","@
}

pub open spec fn payload_numbers(w: nat, h: nat, x: int, y: int) -> Seq<char> {
    text::dec(w) + ","@ + text::dec(h) + ","@ + text::dec_int(x) + ","@ + text::dec_int(y) + "\n"@
}

pub open spec fn physical_payload_rows(ds: Seq<DisplayInfoView>) -> Seq<char>
    decreases ds.len(),
{
    if ds.len() == 0 {
        Seq::empty()
    } else {
        physical_payload_rows(ds.drop_last()) + physical_payload_row(ds.last())
    }
}

/// `id,enabled,width,height,x,y`.
pub open spec fn virtual_payload_row(d: VirtualDisplayView) -> Seq<char> {
    d.id + ","@ + text::bool_text(d.enabled) + ","@ + text::dec(d.width as nat) + ","@ + text::dec(
        d.height as nat,
    ) + ","@ + text::dec_int(d.x as int) + ","@ + text::dec_int(d.y as int) + "\n"@
}

pub open spec fn virtual_payload_rows(ds: Seq<VirtualDisplayView>) -> Seq<char>
    decreases ds.len(),
{
    if ds.len() == 0 {
        Seq::empty()
    } else {
        virtual_payload_rows(ds.drop_last()) + virtual_payload_row(ds.last())
    }
}

/// The `Displays` reply: a protocol line, the physical displays, the virtual ones.
pub open spec fn displays_payload_text(
    physical: Seq<DisplayInfoView>,
    virtuals: Seq<VirtualDisplayView>,
) -> Seq<char> {
    "protocol=2\n"@ + "physical:\n"@ + physical_payload_rows(physical) + "virtual:\n"@
        + virtual_payload_rows(virtuals)
}

fn push_physical_payload_names(out: &mut Vec<char>, d: &DisplayInfo)
    ensures
        final(out)@ == old(out)@ + physical_payload_names(d@),
{
    let ghost before = out@;
    text::push_str(out, d.id.as_str());
    text::push_str(out, ",");
    text::push_str(out, d.name.as_str());
    text::push_str(out, ",");
    text::push_bool(out, d.primary);
    text::push_str(out, ",");
    text::push_bool(out, d.connected);
    text::push_str(out, ",");
    assert(out@ =~= before + physical_payload_names(d@));
}

fn push_physical_payload_numbers(out: &mut Vec<char>, w: u32, h: u32, x: i32, y: i32)
    ensures
        final(out)@ == old(out)@ + payload_numbers(w as nat, h as nat, x as int, y as int),
{
    let ghost before = out@;
    text::push_dec(out, w as u64);
    text::push_str(out, ",");
    text::push_dec(out, h as u64);
    text::push_str(out, ",");
    text::push_dec_int(out, x as i64);
    text::push_str(out, ",");
    text::push_dec_int(out, y as i64);
    text::push_str(out, "\n");
    assert(out@ =~= before + payload_numbers(w as nat, h as nat, x as int, y as int));
}

#[verifier::rlimit(40)]
fn push_physical_payload_row(out: &mut Vec<char>, d: &DisplayInfo)
    ensures
        final(out)@ == old(out)@ + physical_payload_row(d@),
{
    let ghost before = out@;
    push_physical_payload_names(out, d);
    let w: u32 = match d.width {
        Some(v) => v,
        None => 0,
    };
    let h: u32 = match d.height {
        Some(v) => v,
        None => 0,
    };
    let x: i32 = match d.pos_x {
        Some(v) => v,
        None => 0,
    };
    let y: i32 = match d.pos_y {
        Some(v) => v,
        None => 0,
    };
    assert(w == or_zero_u32(d.width) && h == or_zero_u32(d.height));
    assert(x == or_zero_i32(d.pos_x) && y == or_zero_i32(d.pos_y));
    let ghost mid = out@;
    push_physical_payload_numbers(out, w, h, x, y);
    assert(out@ =~= before + physical_payload_row(d@));
}

fn push_virtual_payload_row(out: &mut Vec<char>, d: &VirtualDisplay)
    ensures
        final(out)@ == old(out)@ + virtual_payload_row(d@),
{
    let ghost before = out@;
    text::push_str(out, d.id.as_str());
    text::push_str(out, ",");
    text::push_bool(out, d.enabled);
    text::push_str(out, ",");
    text::push_dec(out, d.width as u64);
    text::push_str(out, ",");
    text::push_dec(out, d.height as u64);
    text::push_str(out, ",");
    text::push_dec_int(out, d.x as i64);
    text::push_str(out, ",");
    text::push_dec_int(out, d.y as i64);
    text::push_str(out, "\n");
    assert(out@ =~= before + virtual_payload_row(d@));
}

/// The text of the `Displays` reply.
pub fn displays_payload(physical: &[DisplayInfo], virtuals: &[VirtualDisplay]) -> (out: Vec<char>)
    ensures
        out@ == displays_payload_text(display_views(physical@), virtual_views(virtuals@)),
{
    let mut cs: Vec<char> = Vec::new();
    text::push_str(&mut cs, "protocol=2\n");
    text::push_str(&mut cs, "physical:\n");
    let ghost head = cs@;
    let ghost pv = display_views(physical@);
    for i in 0..physical.len()
        invariant
            pv == display_views(physical@),
            cs@ == head + physical_payload_rows(pv.take(i as int)),
    {
        assert(pv.take(i + 1).drop_last() =~= pv.take(i as int));
        assert(pv.take(i + 1).last() == physical@[i as int]@);
        push_physical_payload_row(&mut cs, &physical[i]);
        assert(cs@ =~= head + physical_payload_rows(pv.take(i + 1)));
    }
    assert(pv.take(physical@.len() as int) =~= pv);
    text::push_str(&mut cs, "virtual:\n");
    let ghost mid = cs@;
    let ghost vv = virtual_views(virtuals@);
    for i in 0..virtuals.len()
        invariant
            vv == virtual_views(virtuals@),
            cs@ == mid + virtual_payload_rows(vv.take(i as int)),
    {
        assert(vv.take(i + 1).drop_last() =~= vv.take(i as int));
        assert(vv.take(i + 1).last() == virtuals@[i as int]@);
        push_virtual_payload_row(&mut cs, &virtuals[i]);
        assert(cs@ =~= mid + virtual_payload_rows(vv.take(i + 1)));
    }
    assert(vv.take(virtuals@.len() as int) =~= vv);
    assert(cs@ =~= displays_payload_text(pv, vv));
    cs
}

/// The displays left after removing an id are displays of the list.
proof fn lemma_without_id_from(ds: Seq<VirtualDisplayView>, id: Seq<char>)
    ensures
        forall|j: int|
            0 <= j < without_id(ds, id).len() ==> exists|i: int|
                0 <= i < ds.len() && #[trigger] without_id(ds, id)[j] == ds[i],
    decreases ds.len(),
{
    if ds.len() > 0 {
        let init = ds.drop_last();
        lemma_without_id_from(init, id);
        let w = without_id(ds, id);
        assert forall|j: int| 0 <= j < w.len() implies exists|i: int|
            0 <= i < ds.len() && #[trigger] w[j] == ds[i] by {
            if ds.last().id == id {
                let i = choose|i: int| 0 <= i < init.len() && without_id(init, id)[j] == init[i];
                assert(w[j] == ds[i]);
            } else if j < w.len() - 1 {
                let i = choose|i: int| 0 <= i < init.len() && without_id(init, id)[j] == init[i];
                assert(w[j] == ds[i]);
            } else {
                assert(w[j] == ds[ds.len() - 1]);
            }
        }
    }
}

/// Enabling a virtual display and listing the file again gives the stored
/// list: the other displays as they were and the new one, enabled, last; for
/// ids the file can keep.
pub proof fn lemma_enable_then_list(all: Seq<VirtualDisplayView>, d: VirtualDisplayView)
    requires
        forall|i: int| 0 <= i < all.len() ==> storable_id(#[trigger] all[i].id),
        storable_id(d.id),
    ensures
        config_entries(text::spec_lines(config_content(upserted(all, d)))) == Ok::<
            Seq<VirtualDisplayView>,
            Seq<char>,
        >(upserted(all, d)),
{
    let u = upserted(all, d);
    let w = without_id(all, d.id);
    lemma_without_id_from(all, d.id);
    assert forall|j: int| 0 <= j < u.len() implies storable_id(#[trigger] u[j].id) by {
        if j < w.len() {
            let i = choose|i: int| 0 <= i < all.len() && w[j] == all[i];
            assert(u[j] == w[j]);
        } else {
            assert(u[j].id == d.id);
        }
    }
    lemma_virtual_config_read_back(u);
}

/// Disabling a virtual display and listing the file again gives the list
/// without that id, the others in their order; for ids the file can keep.
pub proof fn lemma_disable_then_list(all: Seq<VirtualDisplayView>, id: Seq<char>)
    requires
        forall|i: int| 0 <= i < all.len() ==> storable_id(#[trigger] all[i].id),
    ensures
        config_entries(text::spec_lines(config_content(without_id(all, id)))) == Ok::<
            Seq<VirtualDisplayView>,
            Seq<char>,
        >(without_id(all, id)),
{
    let w = without_id(all, id);
    lemma_without_id_from(all, id);
    assert forall|j: int| 0 <= j < w.len() implies storable_id(#[trigger] w[j].id) by {
        let i = choose|i: int| 0 <= i < all.len() && w[j] == all[i];
    }
    lemma_virtual_config_read_back(w);
}

/// A display read from a line without a line feed has an id the file keeps.
proof fn lemma_config_line_storable(line: Seq<char>, n: nat)
    requires
        !line.contains('\n'),
        config_line(line, n) is Ok,
        config_line(line, n)->Ok_0 is Some,
    ensures
        storable_id(config_line(line, n)->Ok_0->Some_0.id),
{
    let t = text::spec_trim(line);
    text::lemma_trim_shape(line, '\n');
    let p = text::spec_split(t, ',');
    text::lemma_split_nonempty(t, ',');
    text::lemma_split_pieces_lack(t, ',', ',');
    text::lemma_split_pieces_lack(t, ',', '\n');
    text::lemma_split_first(t, ',');
    assert(config_line(line, n)->Ok_0->Some_0.id == p[0]);
    assert(!p[0].contains(','));
    assert(!p[0].contains('\n'));
}

/// Every display read from lines without line feeds has an id the file keeps.
proof fn lemma_entries_storable(ls: Seq<Seq<char>>)
    requires
        forall|i: int| 0 <= i < ls.len() ==> !(#[trigger] ls[i]).contains('\n'),
    ensures
        config_entries(ls) is Ok ==> forall|i: int|
            0 <= i < config_entries(ls)->Ok_0.len() ==> storable_id(
                #[trigger] config_entries(ls)->Ok_0[i].id,
            ),
    decreases ls.len(),
{
    if ls.len() > 0 {
        let init = ls.drop_last();
        assert forall|i: int| 0 <= i < init.len() implies !(#[trigger] init[i]).contains('\n') by {
            assert(init[i] == ls[i]);
        }
        lemma_entries_storable(init);
        assert(ls.last() == ls[ls.len() - 1]);
        match config_entries(init) {
            Err(_) => {},
            Ok(acc) => match config_line(ls.last(), ls.len()) {
                Err(_) => {},
                Ok(None) => {},
                Ok(Some(d)) => {
                    lemma_config_line_storable(ls.last(), ls.len());
                    let ds = acc.push(d);
                    assert forall|i: int| 0 <= i < ds.len() implies storable_id(#[trigger] ds[i].id) by {
                        if i < acc.len() {
                            assert(ds[i] == acc[i]);
                        }
                    }
                },
            },
        }
    }
}

/// Every list read from the virtual display file has ids the file keeps, so
/// writing it back and reading again gives the same list.
pub proof fn lemma_read_ids_storable(content: Seq<char>)
    ensures
        config_entries(text::spec_lines(content)) is Ok ==> forall|i: int|
            0 <= i < config_entries(text::spec_lines(content))->Ok_0.len() ==> storable_id(
                #[trigger] config_entries(text::spec_lines(content))->Ok_0[i].id,
            ),
{
    text::lemma_lines_lack_newline(content);
    lemma_entries_storable(text::spec_lines(content));
}

/// Reading the file, enabling a display whose id the file keeps, writing the
/// list and reading again gives the stored list: the displays read with other
/// ids, in order, and the new one last.
pub proof fn lemma_enable_after_reading(
    content: Seq<char>,
    old_list: Seq<VirtualDisplayView>,
    d: VirtualDisplayView,
)
    requires
        config_entries(text::spec_lines(content)) == Ok::<Seq<VirtualDisplayView>, Seq<char>>(
            old_list,
        ),
        storable_id(d.id),
    ensures
        config_entries(text::spec_lines(config_content(upserted(old_list, d)))) == Ok::<
            Seq<VirtualDisplayView>,
            Seq<char>,
        >(upserted(old_list, d)),
{
    lemma_read_ids_storable(content);
    assert forall|i: int| 0 <= i < old_list.len() implies storable_id(#[trigger] old_list[i].id) by {
        assert(config_entries(text::spec_lines(content))->Ok_0[i] == old_list[i]);
    }
    lemma_enable_then_list(old_list, d);
}

/// Reading the file, removing an id, writing the list and reading again gives
/// the displays read, without that id, in their order.
pub proof fn lemma_disable_after_reading(
    content: Seq<char>,
    old_list: Seq<VirtualDisplayView>,
    id: Seq<char>,
)
    requires
        config_entries(text::spec_lines(content)) == Ok::<Seq<VirtualDisplayView>, Seq<char>>(
            old_list,
        ),
    ensures
        config_entries(text::spec_lines(config_content(without_id(old_list, id)))) == Ok::<
            Seq<VirtualDisplayView>,
            Seq<char>,
        >(without_id(old_list, id)),
{
    lemma_read_ids_storable(content);
    assert forall|i: int| 0 <= i < old_list.len() implies storable_id(#[trigger] old_list[i].id) by {
        assert(config_entries(text::spec_lines(content))->Ok_0[i] == old_list[i]);
    }
    lemma_disable_then_list(old_list, id);
}

} // verus!
