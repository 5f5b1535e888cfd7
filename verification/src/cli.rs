//! The daemon's command line: the options it takes, what they default to, and
//! the action they ask for.
use vstd::prelude::*;

use crate::text;
use crate::text::{chars_of, parse_i32, parse_u32, push_str, str_eq, string_of};

verus! {

/// The settings of a daemon run.
#[derive(Debug, Clone)]
pub struct CliConfig {
    pub display: String,
    pub bind_addr: String,
    pub target_addr: String,
    pub control_bind: String,
    pub pairing_token: String,
    pub prefer_vaapi: bool,
}

/// A virtual display to create.
#[derive(Debug, Clone)]
pub struct VirtualDisplayConfig {
    pub id: String,
    pub width: u32,
    pub height: u32,
    pub x: i32,
    pub y: i32,
}

/// What the command line asks for.
#[derive(Debug, Clone)]
pub enum CliAction {
    Run(CliConfig),
    ListDisplays,
    VirtualBackendStatus,
    ListVirtualDisplays,
    EnableVirtualDisplay(VirtualDisplayConfig),
    DisableVirtualDisplay { id: String },
}

pub struct CliConfigView {
    pub display: Seq<char>,
    pub bind_addr: Seq<char>,
    pub target_addr: Seq<char>,
    pub control_bind: Seq<char>,
    pub pairing_token: Seq<char>,
    pub prefer_vaapi: bool,
}

pub struct VirtualDisplayConfigView {
    pub id: Seq<char>,
    pub width: u32,
    pub height: u32,
    pub x: i32,
    pub y: i32,
}

pub enum CliActionView {
    Run(CliConfigView),
    ListDisplays,
    VirtualBackendStatus,
    ListVirtualDisplays,
    EnableVirtualDisplay(VirtualDisplayConfigView),
    DisableVirtualDisplay(Seq<char>),
}

impl View for CliConfig {
    type V = CliConfigView;

    open spec fn view(&self) -> CliConfigView {
        CliConfigView {
            display: self.display@,
            bind_addr: self.bind_addr@,
            target_addr: self.target_addr@,
            control_bind: self.control_bind@,
            pairing_token: self.pairing_token@,
            prefer_vaapi: self.prefer_vaapi,
        }
    }
}

impl View for VirtualDisplayConfig {
    type V = VirtualDisplayConfigView;

    open spec fn view(&self) -> VirtualDisplayConfigView {
        VirtualDisplayConfigView {
            id: self.id@,
            width: self.width,
            height: self.height,
            x: self.x,
            y: self.y,
        }
    }
}

impl View for CliAction {
    type V = CliActionView;

    open spec fn view(&self) -> CliActionView {
        match self {
            CliAction::Run(c) => CliActionView::Run(c@),
            CliAction::ListDisplays => CliActionView::ListDisplays,
            CliAction::VirtualBackendStatus => CliActionView::VirtualBackendStatus,
            CliAction::ListVirtualDisplays => CliActionView::ListVirtualDisplays,
            CliAction::EnableVirtualDisplay(v) => CliActionView::EnableVirtualDisplay(v@),
            CliAction::DisableVirtualDisplay { id } => CliActionView::DisableVirtualDisplay(id@),
        }
    }
}

// ---------------------------------------------------------------------------
// Specification
// ---------------------------------------------------------------------------
pub open spec fn help_text() -> Seq<char> {
    "Usage: prlx-hostd [options]\n\nRun options:\n  --display <DISPLAY>   X11 display to capture (default :0)\n  --bind <ADDR>         UDP bind address (default 0.0.0.0:5000)\n  --target <ADDR>       UDP target address (default 127.0.0.1:5000)\n  --control-bind <ADDR> TCP control bind address (default 0.0.0.0:0)\n  --pairing-token <KEY> Pairing token for control sessions (default auto)\n  --prefer-vaapi        Prefer VAAPI H.264 encoder (default)\n  --software            Force software H.264 encoder\n\nDisplay management:\n  --list-displays                    List available host displays and exit\n  --virtual-backend-status           Show virtual display backend diagnostics\n  --list-virtual-displays            List persisted virtual displays\n  --enable-virtual-display <ID>      Create/update virtual display\n    --virtual-width <PX>             Required with --enable-virtual-display\n    --virtual-height <PX>            Required with --enable-virtual-display\n    --virtual-x <PX>                 Optional (default 0)\n    --virtual-y <PX>                 Optional (default 0)\n  --disable-virtual-display <ID>     Remove virtual display\n\nGeneral:\n  -h, --help            Print this help text"@
}

/// What the options read so far have set.
pub struct ArgsView {
    pub display: Seq<char>,
    pub bind_addr: Seq<char>,
    pub target_addr: Seq<char>,
    pub control_bind: Seq<char>,
    pub pairing_token: Seq<char>,
    pub prefer_vaapi: bool,
    pub list_displays: bool,
    pub backend_status: bool,
    pub list_virtual: bool,
    pub enable_id: Option<Seq<char>>,
    pub disable_id: Option<Seq<char>>,
    pub width: Option<u32>,
    pub height: Option<u32>,
    pub x: i32,
    pub y: i32,
}

/// The settings before any option.
pub open spec fn default_args() -> ArgsView {
    ArgsView {
        display: ":0"@,
        bind_addr: "0.0.0.0:5000"@,
        target_addr: "127.0.0.1:5000"@,
        control_bind: "0.0.0.0:0"@,
        pairing_token: "auto"@,
        prefer_vaapi: true,
        list_displays: false,
        backend_status: false,
        list_virtual: false,
        enable_id: None,
        disable_id: None,
        width: None,
        height: None,
        x: 0,
        y: 0,
    }
}

/// Reading one option: go on at the given position with the new settings, or stop with a message.
pub enum ArgStep {
    Go(int, ArgsView),
    Stop(Seq<char>),
}

/// An option that takes a text value.
pub open spec fn text_option(args: Seq<Seq<char>>, i: int, st: ArgsView) -> Option<ArgStep> {
    let a = args[i];
    let more = i + 1 < args.len();
    let v = args[i + 1];
    if a == "--display"@ {
        Some(if more { ArgStep::Go(i + 2, ArgsView { display: v, ..st }) } else { ArgStep::Stop("--display requires a value"@) })
    } else if a == "--bind"@ {
        Some(if more { ArgStep::Go(i + 2, ArgsView { bind_addr: v, ..st }) } else { ArgStep::Stop("--bind requires a value"@) })
    } else if a == "--target"@ {
        Some(if more { ArgStep::Go(i + 2, ArgsView { target_addr: v, ..st }) } else { ArgStep::Stop("--target requires a value"@) })
    } else if a == "--control-bind"@ {
        Some(if more { ArgStep::Go(i + 2, ArgsView { control_bind: v, ..st }) } else { ArgStep::Stop("--control-bind requires a value"@) })
    } else if a == "--pairing-token"@ {
        Some(if more { ArgStep::Go(i + 2, ArgsView { pairing_token: v, ..st }) } else { ArgStep::Stop("--pairing-token requires a value"@) })
    } else if a == "--enable-virtual-display"@ {
        Some(if more { ArgStep::Go(i + 2, ArgsView { enable_id: Some(v), ..st }) } else { ArgStep::Stop("--enable-virtual-display requires an id"@) })
    } else if a == "--disable-virtual-display"@ {
        Some(if more { ArgStep::Go(i + 2, ArgsView { disable_id: Some(v), ..st }) } else { ArgStep::Stop("--disable-virtual-display requires an id"@) })
    } else {
        None
    }
}

/// An option that takes a number.
pub open spec fn number_option(args: Seq<Seq<char>>, i: int, st: ArgsView) -> Option<ArgStep> {
    let a = args[i];
    let more = i + 1 < args.len();
    let v = args[i + 1];
    if a == "--virtual-width"@ {
        Some(if !more { ArgStep::Stop("--virtual-width requires a value"@) } else {
            match text::spec_parse_u32(v) {
                Some(n) => ArgStep::Go(i + 2, ArgsView { width: Some(n as u32), ..st }),
                None => ArgStep::Stop("--virtual-width expects an integer"@),
            }
        })
    } else if a == "--virtual-height"@ {
        Some(if !more { ArgStep::Stop("--virtual-height requires a value"@) } else {
            match text::spec_parse_u32(v) {
                Some(n) => ArgStep::Go(i + 2, ArgsView { height: Some(n as u32), ..st }),
                None => ArgStep::Stop("--virtual-height expects an integer"@),
            }
        })
    } else if a == "--virtual-x"@ {
        Some(if !more { ArgStep::Stop("--virtual-x requires a value"@) } else {
            match text::spec_parse_i32(v) {
                Some(n) => ArgStep::Go(i + 2, ArgsView { x: n as i32, ..st }),
                None => ArgStep::Stop("--virtual-x expects an integer"@),
            }
        })
    } else if a == "--virtual-y"@ {
        Some(if !more { ArgStep::Stop("--virtual-y requires a value"@) } else {
            match text::spec_parse_i32(v) {
                Some(n) => ArgStep::Go(i + 2, ArgsView { y: n as i32, ..st }),
                None => ArgStep::Stop("--virtual-y expects an integer"@),
            }
        })
    } else {
        None
    }
}

/// A switch, which takes no value; help and anything unknown stop the reading.
pub open spec fn flag_option(args: Seq<Seq<char>>, i: int, st: ArgsView) -> ArgStep {
    let a = args[i];
    if a == "--prefer-vaapi"@ {
        ArgStep::Go(i + 1, ArgsView { prefer_vaapi: true, ..st })
    } else if a == "--software"@ {
        ArgStep::Go(i + 1, ArgsView { prefer_vaapi: false, ..st })
    } else if a == "--list-displays"@ {
        ArgStep::Go(i + 1, ArgsView { list_displays: true, ..st })
    } else if a == "--virtual-backend-status"@ {
        ArgStep::Go(i + 1, ArgsView { backend_status: true, ..st })
    } else if a == "--list-virtual-displays"@ {
        ArgStep::Go(i + 1, ArgsView { list_virtual: true, ..st })
    } else if a == "-h"@ || a == "--help"@ {
        ArgStep::Stop(help_text())
    } else {
        ArgStep::Stop("Unknown argument: "@ + a + "\n\n"@ + help_text())
    }
}

/// Reading the option at position `i`.
pub open spec fn arg_step(args: Seq<Seq<char>>, i: int, st: ArgsView) -> ArgStep {
    match text_option(args, i, st) {
        Some(s) => s,
        None => match number_option(args, i, st) {
            Some(s) => s,
            None => flag_option(args, i, st),
        },
    }
}

/// Reading the options from position `i` on.
pub open spec fn scan_args(args: Seq<Seq<char>>, i: int, st: ArgsView) -> Result<ArgsView, Seq<char>>
    decreases args.len() - i,
{
    if i < 0 || i >= args.len() {
        Ok(st)
    } else {
        match arg_step(args, i, st) {
            ArgStep::Stop(m) => Err(m),
            ArgStep::Go(j, next) => if j > i {
                scan_args(args, j, next)
            } else {
                Ok(next)
            },
        }
    }
}

/// The action the settings ask for: removing a virtual display first, then
/// creating one, then the listings, else a run.
pub open spec fn chosen_action(st: ArgsView) -> Result<CliActionView, Seq<char>> {
    match st.disable_id {
        Some(id) => Ok(CliActionView::DisableVirtualDisplay(id)),
        None => match st.enable_id {
            Some(id) => match st.width {
                None => Err("--virtual-width is required"@),
                Some(w) => match st.height {
                    None => Err("--virtual-height is required"@),
                    Some(h) => Ok(
                        CliActionView::EnableVirtualDisplay(
                            VirtualDisplayConfigView { id, width: w, height: h, x: st.x, y: st.y },
                        ),
                    ),
                },
            },
            None => if st.list_virtual {
                Ok(CliActionView::ListVirtualDisplays)
            } else if st.backend_status {
                Ok(CliActionView::VirtualBackendStatus)
            } else if st.list_displays {
                Ok(CliActionView::ListDisplays)
            } else {
                Ok(
                    CliActionView::Run(
                        CliConfigView {
                            display: st.display,
                            bind_addr: st.bind_addr,
                            target_addr: st.target_addr,
                            control_bind: st.control_bind,
                            pairing_token: st.pairing_token,
                            prefer_vaapi: st.prefer_vaapi,
                        },
                    ),
                )
            },
        },
    }
}

/// `--virtual-x` and `--virtual-y` followed by a number set the offset of the
/// virtual display along their own axis and leave every other setting as it was.
pub proof fn lemma_offset_options(args: Seq<Seq<char>>, i: int, st: ArgsView)
    requires
        0 <= i,
        i + 1 < args.len(),
        text::spec_parse_i32(args[i + 1]) is Some,
    ensures
        args[i] == "--virtual-x"@ ==> arg_step(args, i, st) == ArgStep::Go(
            i + 2,
            ArgsView { x: text::spec_parse_i32(args[i + 1])->0 as i32, ..st },
        ),
        args[i] == "--virtual-y"@ ==> arg_step(args, i, st) == ArgStep::Go(
            i + 2,
            ArgsView { y: text::spec_parse_i32(args[i + 1])->0 as i32, ..st },
        ),
{
    reveal_strlit("--virtual-x");
    reveal_strlit("--virtual-y");
    reveal_strlit("--virtual-width");
    reveal_strlit("--virtual-height");
    reveal_strlit("--display");
    reveal_strlit("--bind");
    reveal_strlit("--target");
    reveal_strlit("--control-bind");
    reveal_strlit("--pairing-token");
    reveal_strlit("--enable-virtual-display");
    reveal_strlit("--disable-virtual-display");
    if args[i] == "--virtual-x"@ {
        assert(args[i][10] == 'x');
        assert("--virtual-y"@[10] == 'y');
    }
    if args[i] == "--virtual-y"@ {
        assert(args[i][10] == 'y');
        assert("--virtual-x"@[10] == 'x');
    }
}

/// Each option that takes a value, given one, sets its own setting to that
/// value and leaves every other setting as it was.
pub proof fn lemma_value_options(args: Seq<Seq<char>>, i: int, st: ArgsView)
    requires
        0 <= i,
        i + 1 < args.len(),
    ensures
        ({
            let v = args[i + 1];
            &&& args[i] == "--display"@ ==> arg_step(args, i, st) == ArgStep::Go(i + 2, ArgsView { display: v, ..st })
            &&& args[i] == "--bind"@ ==> arg_step(args, i, st) == ArgStep::Go(i + 2, ArgsView { bind_addr: v, ..st })
            &&& args[i] == "--target"@ ==> arg_step(args, i, st) == ArgStep::Go(i + 2, ArgsView { target_addr: v, ..st })
            &&& args[i] == "--control-bind"@ ==> arg_step(args, i, st) == ArgStep::Go(i + 2, ArgsView { control_bind: v, ..st })
            &&& args[i] == "--pairing-token"@ ==> arg_step(args, i, st) == ArgStep::Go(i + 2, ArgsView { pairing_token: v, ..st })
            &&& args[i] == "--enable-virtual-display"@ ==> arg_step(args, i, st) == ArgStep::Go(i + 2, ArgsView { enable_id: Some(v), ..st })
            &&& args[i] == "--disable-virtual-display"@ ==> arg_step(args, i, st) == ArgStep::Go(i + 2, ArgsView { disable_id: Some(v), ..st })
            &&& args[i] == "--virtual-width"@ && text::spec_parse_u32(v) is Some ==> arg_step(args, i, st) == ArgStep::Go(
                i + 2,
                ArgsView { width: Some(text::spec_parse_u32(v)->0 as u32), ..st },
            )
            &&& args[i] == "--virtual-height"@ && text::spec_parse_u32(v) is Some ==> arg_step(args, i, st) == ArgStep::Go(
                i + 2,
                ArgsView { height: Some(text::spec_parse_u32(v)->0 as u32), ..st },
            )
        }),
{
    reveal_strlit("--virtual-x");
    reveal_strlit("--virtual-y");
    reveal_strlit("--virtual-width");
    reveal_strlit("--virtual-height");
    reveal_strlit("--display");
    reveal_strlit("--bind");
    reveal_strlit("--target");
    reveal_strlit("--control-bind");
    reveal_strlit("--pairing-token");
    reveal_strlit("--enable-virtual-display");
    reveal_strlit("--disable-virtual-display");
    assert("--virtual-width"@[2] != "--pairing-token"@[2]);
    assert("--enable-virtual-display"@[2] != "--disable-virtual-display"@[2]);
}

/// Creating a virtual display with a width, a height and a `--virtual-y` offset
/// gives that id and size, the offset as y, and x left at 0.
pub proof fn lemma_enable_with_y(id: Seq<char>, w: Seq<char>, h: Seq<char>, y: Seq<char>)
    requires
        text::spec_parse_u32(w) is Some,
        text::spec_parse_u32(h) is Some,
        text::spec_parse_i32(y) is Some,
    ensures
        cli_action(
            seq![
                "--enable-virtual-display"@,
                id,
                "--virtual-width"@,
                w,
                "--virtual-height"@,
                h,
                "--virtual-y"@,
                y,
            ],
        ) == Ok::<CliActionView, Seq<char>>(
            CliActionView::EnableVirtualDisplay(
                VirtualDisplayConfigView {
                    id,
                    width: text::spec_parse_u32(w)->0 as u32,
                    height: text::spec_parse_u32(h)->0 as u32,
                    x: 0,
                    y: text::spec_parse_i32(y)->0 as i32,
                },
            ),
        ),
{
    reveal_strlit("--virtual-x");
    reveal_strlit("--virtual-y");
    reveal_strlit("--virtual-width");
    reveal_strlit("--virtual-height");
    reveal_strlit("--display");
    reveal_strlit("--bind");
    reveal_strlit("--target");
    reveal_strlit("--control-bind");
    reveal_strlit("--pairing-token");
    reveal_strlit("--enable-virtual-display");
    reveal_strlit("--disable-virtual-display");
    let args = seq![
        "--enable-virtual-display"@,
        id,
        "--virtual-width"@,
        w,
        "--virtual-height"@,
        h,
        "--virtual-y"@,
        y,
    ];
    let d = default_args();
    let s1 = ArgsView { enable_id: Some(id), ..d };
    let s2 = ArgsView { width: Some(text::spec_parse_u32(w)->0 as u32), ..s1 };
    let s3 = ArgsView { height: Some(text::spec_parse_u32(h)->0 as u32), ..s2 };
    let s4 = ArgsView { y: text::spec_parse_i32(y)->0 as i32, ..s3 };
    assert(args[0] == "--enable-virtual-display"@);
    assert("--enable-virtual-display"@[2] != "--disable-virtual-display"@[2]);
    assert(arg_step(args, 0, d) == ArgStep::Go(2, s1));
    assert(args[2] == "--virtual-width"@);
    assert("--virtual-width"@[2] != "--pairing-token"@[2]);
    assert(arg_step(args, 2, s1) == ArgStep::Go(4, s2));
    assert(args[4] == "--virtual-height"@);
    assert("--virtual-height"@[10] != "--virtual-width"@[10]);
    assert(arg_step(args, 4, s2) == ArgStep::Go(6, s3));
    assert(args[6] == "--virtual-y"@);
    lemma_offset_options(args, 6, s3);
    assert(arg_step(args, 6, s3) == ArgStep::Go(8, s4));
    assert(scan_args(args, 8, s4) == Ok::<ArgsView, Seq<char>>(s4));
    assert(scan_args(args, 6, s3) == Ok::<ArgsView, Seq<char>>(s4));
    assert(scan_args(args, 4, s2) == Ok::<ArgsView, Seq<char>>(s4));
    assert(scan_args(args, 2, s1) == Ok::<ArgsView, Seq<char>>(s4));
    assert(scan_args(args, 0, d) == Ok::<ArgsView, Seq<char>>(s4));
}

/// What a command line (without the program name) asks for.
pub open spec fn cli_action(args: Seq<Seq<char>>) -> Result<CliActionView, Seq<char>> {
    match scan_args(args, 0, default_args()) {
        Err(m) => Err(m),
        Ok(st) => chosen_action(st),
    }
}

pub open spec fn arg_views(args: Seq<String>) -> Seq<Seq<char>> {
    args.map_values(|a: String| a@)
}

// ---------------------------------------------------------------------------
// Reading the command line
// ---------------------------------------------------------------------------
struct ArgState {
    display: String,
    bind_addr: String,
    target_addr: String,
    control_bind: String,
    pairing_token: String,
    prefer_vaapi: bool,
    list_displays: bool,
    backend_status: bool,
    list_virtual: bool,
    enable_id: Option<String>,
    disable_id: Option<String>,
    width: Option<u32>,
    height: Option<u32>,
    x: i32,
    y: i32,
}

pub open spec fn opt_text(o: Option<String>) -> Option<Seq<char>> {
    match o {
        Some(s) => Some(s@),
        None => None,
    }
}

impl View for ArgState {
    type V = ArgsView;

    closed spec fn view(&self) -> ArgsView {
        ArgsView {
            display: self.display@,
            bind_addr: self.bind_addr@,
            target_addr: self.target_addr@,
            control_bind: self.control_bind@,
            pairing_token: self.pairing_token@,
            prefer_vaapi: self.prefer_vaapi,
            list_displays: self.list_displays,
            backend_status: self.backend_status,
            list_virtual: self.list_virtual,
            enable_id: opt_text(self.enable_id),
            disable_id: opt_text(self.disable_id),
            width: self.width,
            height: self.height,
            x: self.x,
            y: self.y,
        }
    }
}

fn missing(msg: &str) -> (r: Result<usize, String>)
    ensures
        r matches Err(e) && e@ == msg@,
{
    Err(String::from_str(msg))
}

fn read_text_option(args: &[String], i: usize, st: &mut ArgState) -> (r: Option<Result<usize, String>>)
    requires
        i < args@.len(),
    ensures
        match text_option(arg_views(args@), i as int, old(st)@) {
            None => r is None && *final(st) == *old(st),
            Some(ArgStep::Go(j, s)) => r == Some(Ok::<usize, String>(j as usize)) && final(st)@ == s
                && j == i + 2,
            Some(ArgStep::Stop(m)) => r matches Some(Err(e)) && e@ == m,
        },
{
    let ghost av = arg_views(args@);
    let a = args[i].as_str();
    assert(a@ == av[i as int]);
    let more = i + 1 < args.len();
    if more {
        assert(args[i + 1]@ == av[i + 1]);
    }
    if str_eq(a, "--display") {
        if !more {
            return Some(missing("--display requires a value"));
        }
        st.display = args[i + 1].clone();
    } else if str_eq(a, "--bind") {
        if !more {
            return Some(missing("--bind requires a value"));
        }
        st.bind_addr = args[i + 1].clone();
    } else if str_eq(a, "--target") {
        if !more {
            return Some(missing("--target requires a value"));
        }
        st.target_addr = args[i + 1].clone();
    } else if str_eq(a, "--control-bind") {
        if !more {
            return Some(missing("--control-bind requires a value"));
        }
        st.control_bind = args[i + 1].clone();
    } else if str_eq(a, "--pairing-token") {
        if !more {
            return Some(missing("--pairing-token requires a value"));
        }
        st.pairing_token = args[i + 1].clone();
    } else if str_eq(a, "--enable-virtual-display") {
        if !more {
            return Some(missing("--enable-virtual-display requires an id"));
        }
        st.enable_id = Some(args[i + 1].clone());
    } else if str_eq(a, "--disable-virtual-display") {
        if !more {
            return Some(missing("--disable-virtual-display requires an id"));
        }
        st.disable_id = Some(args[i + 1].clone());
    } else {
        return None;
    }
    Some(Ok(i + 2))
}

fn read_number_option(args: &[String], i: usize, st: &mut ArgState) -> (r: Option<Result<usize, String>>)
    requires
        i < args@.len(),
    ensures
        match number_option(arg_views(args@), i as int, old(st)@) {
            None => r is None && *final(st) == *old(st),
            Some(ArgStep::Go(j, s)) => r == Some(Ok::<usize, String>(j as usize)) && final(st)@ == s
                && j == i + 2,
            Some(ArgStep::Stop(m)) => r matches Some(Err(e)) && e@ == m,
        },
{
    let ghost av = arg_views(args@);
    let a = args[i].as_str();
    assert(a@ == av[i as int]);
    let more = i + 1 < args.len();
    if str_eq(a, "--virtual-width") {
        if !more {
            return Some(missing("--virtual-width requires a value"));
        }
        assert(args[i + 1]@ == av[i + 1]);
        match parse_u32(&chars_of(args[i + 1].as_str())) {
            Some(n) => st.width = Some(n),
            None => return Some(missing("--virtual-width expects an integer")),
        }
    } else if str_eq(a, "--virtual-height") {
        if !more {
            return Some(missing("--virtual-height requires a value"));
        }
        assert(args[i + 1]@ == av[i + 1]);
        match parse_u32(&chars_of(args[i + 1].as_str())) {
            Some(n) => st.height = Some(n),
            None => return Some(missing("--virtual-height expects an integer")),
        }
    } else if str_eq(a, "--virtual-x") {
        if !more {
            return Some(missing("--virtual-x requires a value"));
        }
        assert(args[i + 1]@ == av[i + 1]);
        match parse_i32(&chars_of(args[i + 1].as_str())) {
            Some(n) => st.x = n,
            None => return Some(missing("--virtual-x expects an integer")),
        }
    } else if str_eq(a, "--virtual-y") {
        if !more {
            return Some(missing("--virtual-y requires a value"));
        }
        assert(args[i + 1]@ == av[i + 1]);
        match parse_i32(&chars_of(args[i + 1].as_str())) {
            Some(n) => st.y = n,
            None => return Some(missing("--virtual-y expects an integer")),
        }
    } else {
        return None;
    }
    Some(Ok(i + 2))
}

fn read_flag(args: &[String], i: usize, st: &mut ArgState) -> (r: Result<usize, String>)
    requires
        i < args@.len(),
    ensures
        match flag_option(arg_views(args@), i as int, old(st)@) {
            ArgStep::Go(j, s) => r == Ok::<usize, String>(j as usize) && final(st)@ == s && j == i
                + 1,
            ArgStep::Stop(m) => r matches Err(e) && e@ == m,
        },
{
    let ghost av = arg_views(args@);
    let a = args[i].as_str();
    assert(a@ == av[i as int]);
    if str_eq(a, "--prefer-vaapi") {
        st.prefer_vaapi = true;
    } else if str_eq(a, "--software") {
        st.prefer_vaapi = false;
    } else if str_eq(a, "--list-displays") {
        st.list_displays = true;
    } else if str_eq(a, "--virtual-backend-status") {
        st.backend_status = true;
    } else if str_eq(a, "--list-virtual-displays") {
        st.list_virtual = true;
    } else if str_eq(a, "-h") || str_eq(a, "--help") {
        return Err(CliConfig::help());
    } else {
        let mut cs: Vec<char> = Vec::new();
        push_str(&mut cs, "Unknown argument: ");
        push_str(&mut cs, a);
        push_str(&mut cs, "\n\n");
        let h = CliConfig::help();
        push_str(&mut cs, h.as_str());
        assert(cs@ =~= "Unknown argument: "@ + a@ + "\n\n"@ + help_text());
        return Err(string_of(&cs));
    }
    Ok(i + 1)
}

fn defaults() -> (st: ArgState)
    ensures
        st@ == default_args(),
{
    ArgState {
        display: String::from_str(":0"),
        bind_addr: String::from_str("0.0.0.0:5000"),
        target_addr: String::from_str("127.0.0.1:5000"),
        control_bind: String::from_str("0.0.0.0:0"),
        pairing_token: String::from_str("auto"),
        prefer_vaapi: true,
        list_displays: false,
        backend_status: false,
        list_virtual: false,
        enable_id: None,
        disable_id: None,
        width: None,
        height: None,
        x: 0,
        y: 0,
    }
}

fn choose_action(st: ArgState) -> (r: Result<CliAction, String>)
    ensures
        match chosen_action(st@) {
            Ok(a) => r matches Ok(b) && b@ == a,
            Err(m) => r matches Err(e) && e@ == m,
        },
{
    let ghost v = st@;
    if let Some(id) = st.disable_id {
        return Ok(CliAction::DisableVirtualDisplay { id });
    }
    if let Some(id) = st.enable_id {
        let width = match st.width {
            Some(w) => w,
            None => return Err(String::from_str("--virtual-width is required")),
        };
        let height = match st.height {
            Some(h) => h,
            None => return Err(String::from_str("--virtual-height is required")),
        };
        return Ok(
            CliAction::EnableVirtualDisplay(
                VirtualDisplayConfig { id, width, height, x: st.x, y: st.y },
            ),
        );
    }
    if st.list_virtual {
        return Ok(CliAction::ListVirtualDisplays);
    }
    if st.backend_status {
        return Ok(CliAction::VirtualBackendStatus);
    }
    if st.list_displays {
        return Ok(CliAction::ListDisplays);
    }
    Ok(
        CliAction::Run(
            CliConfig {
                display: st.display,
                bind_addr: st.bind_addr,
                target_addr: st.target_addr,
                control_bind: st.control_bind,
                pairing_token: st.pairing_token,
                prefer_vaapi: st.prefer_vaapi,
            },
        ),
    )
}

impl CliConfig {
    /// Reads the command line, the program name left out: the action it asks
    /// for, or the message to print (the help text where it asks for help).
    pub fn parse_args(args: &[String]) -> (r: Result<CliAction, String>)
        ensures
            match cli_action(arg_views(args@)) {
                Ok(a) => r matches Ok(b) && b@ == a,
                Err(m) => r matches Err(e) && e@ == m,
            },
    {
        let ghost av = arg_views(args@);
        let mut st = defaults();
        let mut i: usize = 0;
        while i < args.len()
            invariant
                av == arg_views(args@),
                i <= args@.len(),
                scan_args(av, 0, default_args()) == scan_args(av, i as int, st@),
            decreases args@.len() - i,
        {
            let ghost before = st@;
            let step = match read_text_option(args, i, &mut st) {
                Some(r) => r,
                None => match read_number_option(args, i, &mut st) {
                    Some(r) => r,
                    None => read_flag(args, i, &mut st),
                },
            };
            match step {
                Ok(j) => {
                    assert(scan_args(av, i as int, before) == scan_args(av, j as int, st@));
                    if j > args.len() {
                        i = args.len();
                    } else {
                        i = j;
                    }
                },
                Err(m) => return Err(m),
            }
        }
        choose_action(st)
    }

    /// The usage text.
    pub fn help() -> (s: String)
        ensures
            s@ == help_text(),
    {
        String::from_str(
            "Usage: prlx-hostd [options]\n\nRun options:\n  --display <DISPLAY>   X11 display to capture (default :0)\n  --bind <ADDR>         UDP bind address (default 0.0.0.0:5000)\n  --target <ADDR>       UDP target address (default 127.0.0.1:5000)\n  --control-bind <ADDR> TCP control bind address (default 0.0.0.0:0)\n  --pairing-token <KEY> Pairing token for control sessions (default auto)\n  --prefer-vaapi        Prefer VAAPI H.264 encoder (default)\n  --software            Force software H.264 encoder\n\nDisplay management:\n  --list-displays                    List available host displays and exit\n  --virtual-backend-status           Show virtual display backend diagnostics\n  --list-virtual-displays            List persisted virtual displays\n  --enable-virtual-display <ID>      Create/update virtual display\n    --virtual-width <PX>             Required with --enable-virtual-display\n    --virtual-height <PX>            Required with --enable-virtual-display\n    --virtual-x <PX>                 Optional (default 0)\n    --virtual-y <PX>                 Optional (default 0)\n  --disable-virtual-display <ID>     Remove virtual display\n\nGeneral:\n  -h, --help            Print this help text",
        )
    }
}

} // verus!
