use parallax::display::{
    check_setmonitor_backend, delmonitor_failure, displays_payload, displays_to_apply,
    format_displays, format_virtual_backend_status, format_virtual_displays, lookup_display_id,
    parse_geometry, parse_virtual_config, parse_xrandr_query, precheck_display_id,
    remove_virtual_display, select_displays, setmonitor_failure, setmonitor_geometry,
    upsert_virtual_display, virtual_config_content, DisplayInfo, VirtualBackendStatus,
    VirtualDisplay,
};
use parallax::text::chars_of;

fn vd(id: &str, width: u32, height: u32, x: i32, y: i32, enabled: bool) -> VirtualDisplay {
    VirtualDisplay { id: id.to_string(), width, height, x, y, enabled }
}

fn backend(session: &str, available: bool, setmonitor: bool) -> VirtualBackendStatus {
    VirtualBackendStatus {
        session_type: session.to_string(),
        display_env: Some(":0".to_string()),
        wayland_display_env: None,
        xrandr_available: available,
        xrandr_query_ok: available,
        xrandr_setmonitor_supported: setmonitor,
        vkms_loaded: false,
    }
}

const XRANDR: &str = "Screen 0: minimum 8 x 8, current 3840 x 1080, maximum 32767 x 32767\n\
eDP-1 connected primary 1920x1080+0+0 (normal left inverted right x axis y axis) 344mm x 194mm\n   1920x1080     60.00*+\n\
HDMI-1 connected 1920x1080+1920+0 (normal left inverted right x axis y axis) 527mm x 296mm\n\
DP-1 disconnected (normal left inverted right x axis y axis)\n\
DP-2 connected (normal left inverted right x axis y axis)\n";

#[test]
fn geometry_tokens() {
    assert_eq!(parse_geometry(&chars_of("1920x1080+0+0")), Some((1920, 1080, 0, 0)));
    assert_eq!(parse_geometry(&chars_of("800x600+-10+20")), Some((800, 600, -10, 20)));
    assert_eq!(parse_geometry(&chars_of("1920x1080")), None);
    assert_eq!(parse_geometry(&chars_of("axb+1+2")), None);
}

#[test]
fn xrandr_query_lists_connected_outputs() {
    let ds = parse_xrandr_query(XRANDR);
    assert_eq!(ds.len(), 3);
    assert_eq!(ds[0].id, "eDP-1");
    assert!(ds[0].primary);
    assert_eq!((ds[0].width, ds[0].height, ds[0].pos_x, ds[0].pos_y), (Some(1920), Some(1080), Some(0), Some(0)));
    assert_eq!(ds[1].name, "HDMI-1");
    assert!(!ds[1].primary);
    assert_eq!(ds[1].pos_x, Some(1920));
    assert_eq!(ds[2].id, "DP-2");
    assert_eq!(ds[2].width, None);
}

#[test]
fn fallback_display_without_outputs() {
    let ds = select_displays(Some("nothing here\n"), Some(":1".to_string()));
    assert_eq!(ds.len(), 1);
    assert_eq!(ds[0].id, ":1");
    assert!(ds[0].primary && ds[0].connected);
    let ds = select_displays(None, None);
    assert_eq!(ds[0].name, ":0");
    assert_eq!(select_displays(Some(XRANDR), None).len(), 3);
}

#[test]
fn display_report() {
    let ds = parse_xrandr_query(XRANDR);
    assert_eq!(
        format_displays(&ds),
        "Detected displays:\nid\tname\tprimary\tconnected\tgeometry\n\
         eDP-1\teDP-1\ttrue\ttrue\t1920x1080+0+0\n\
         HDMI-1\tHDMI-1\tfalse\ttrue\t1920x1080+1920+0\n\
         DP-2\tDP-2\tfalse\ttrue\tunknown\n"
    );
}

#[test]
fn virtual_display_report() {
    assert_eq!(format_virtual_displays(&[]), "No virtual displays configured.\n");
    assert_eq!(
        format_virtual_displays(&[vd("prlx-v1", 1920, 1080, -1920, 0, true)]),
        "Configured virtual displays:\nid\tenabled\tgeometry\nprlx-v1\ttrue\t1920x1080+-1920+0\n"
    );
}

#[test]
fn backend_report_notes() {
    let report = format_virtual_backend_status(&backend("x11", true, true));
    assert_eq!(
        report,
        "Virtual display backend status:\nsession_type=x11\nDISPLAY=:0\nWAYLAND_DISPLAY=<unset>\n\
         xrandr_available=true\nxrandr_query_ok=true\nxrandr_setmonitor_supported=true\nvkms_loaded=false\n\n"
    );
    assert!(format_virtual_backend_status(&backend("Wayland", true, true))
        .ends_with("\nnote=Wayland session detected; xrandr virtual monitors may be unavailable.\n"));
    assert!(format_virtual_backend_status(&backend("x11", false, false))
        .ends_with("\nnote=xrandr not found; install x11-xserver-utils.\n"));
    assert!(format_virtual_backend_status(&backend("x11", true, false))
        .ends_with("\nnote=this xrandr build does not support --setmonitor.\n"));
}

#[test]
fn virtual_config_file_reads_back() {
    let list = vec![vd("prlx-v1", 1920, 1080, 0, 0, true), vd("prlx-v2", 1280, 720, -1280, 5, false)];
    let content = virtual_config_content(&list);
    assert_eq!(
        content,
        "# id,width,height,x,y,enabled\nprlx-v1,1920,1080,0,0,1\nprlx-v2,1280,720,-1280,5,0\n"
    );
    let back = parse_virtual_config(&content).unwrap();
    assert_eq!(back.len(), 2);
    assert_eq!(back[1].id, "prlx-v2");
    assert_eq!((back[1].width, back[1].height, back[1].x, back[1].y, back[1].enabled), (1280, 720, -1280, 5, false));
}

#[test]
fn virtual_config_errors_name_the_line() {
    assert_eq!(
        parse_virtual_config("# header\n\na,1,2,3\n").unwrap_err(),
        "Invalid virtual display config at line 3"
    );
    assert_eq!(parse_virtual_config("a,x,2,3,4,1\n").unwrap_err(), "Invalid width at line 1");
    assert_eq!(parse_virtual_config("a,1,-2,3,4,1\n").unwrap_err(), "Invalid height at line 1");
    assert_eq!(parse_virtual_config("a,1,2,x,4,1\n").unwrap_err(), "Invalid x at line 1");
    assert_eq!(parse_virtual_config("a,1,2,3,y,1\n").unwrap_err(), "Invalid y at line 1");
    let ds = parse_virtual_config(" a,1,2,3,4,yes \nb,1,2,3,4,maybe\n").unwrap();
    assert!(ds[0].enabled);
    assert!(!ds[1].enabled);
}

#[test]
fn upsert_replaces_and_enables() {
    let list = vec![vd("a", 1, 1, 0, 0, true), vd("b", 2, 2, 0, 0, false)];
    let out = upsert_virtual_display(&list, &vd("a", 9, 9, 1, 1, false));
    assert_eq!(out.len(), 2);
    assert_eq!(out[0].id, "b");
    assert_eq!(out[1].id, "a");
    assert_eq!(out[1].width, 9);
    assert!(out[1].enabled);
    let removed = remove_virtual_display(&out, "a");
    assert_eq!(removed.len(), 1);
    assert_eq!(removed[0].id, "b");
    let enabled = displays_to_apply(&list);
    assert_eq!(enabled.len(), 1);
    assert_eq!(enabled[0].id, "a");
}

#[test]
fn setmonitor_arguments_and_errors() {
    assert_eq!(setmonitor_geometry(&vd("v", 1920, 1080, -5, 7, true)), "1920/1920x1080/1080+-5+7");
    assert_eq!(check_setmonitor_backend(&backend("x11", true, true)), Ok(()));
    assert_eq!(
        check_setmonitor_backend(&backend("x11", false, true)),
        Err("xrandr is not available. Install x11-xserver-utils.".to_string())
    );
    assert_eq!(
        check_setmonitor_backend(&backend("x11", true, false)),
        Err("xrandr does not support --setmonitor on this system.".to_string())
    );
    assert_eq!(
        check_setmonitor_backend(&backend("WAYLAND", true, true)),
        Err("Wayland session detected; virtual monitors via xrandr usually require X11 session.".to_string())
    );
    assert_eq!(
        setmonitor_failure("  \n"),
        "xrandr --setmonitor failed. Check DISPLAY/X11 session and monitor naming conflicts."
    );
    assert_eq!(
        setmonitor_failure(" bad name\n"),
        "xrandr --setmonitor failed: bad name. Check DISPLAY/X11 session and monitor naming conflicts."
    );
    assert_eq!(delmonitor_failure("v1"), "xrandr --delmonitor failed for v1");
}

#[test]
fn display_ids_for_streams() {
    assert_eq!(precheck_display_id("  "), Err("display id is required".to_string()));
    assert_eq!(precheck_display_id(":1"), Ok(false));
    assert_eq!(precheck_display_id("HDMI-1"), Ok(true));
    let physical = parse_xrandr_query(XRANDR);
    let virtuals = vec![vd("prlx-v2", 1, 1, 0, 0, true), vd("prlx-v3", 1, 1, 0, 0, false)];
    assert_eq!(lookup_display_id("HDMI-1", &physical, &virtuals), Ok(()));
    assert_eq!(lookup_display_id("prlx-v2", &physical, &virtuals), Ok(()));
    assert_eq!(
        lookup_display_id("prlx-v3", &physical, &virtuals),
        Err("display_id not found".to_string())
    );
}

#[test]
fn displays_reply() {
    let physical = vec![DisplayInfo {
        id: "eDP-1".to_string(),
        name: "eDP-1".to_string(),
        primary: true,
        connected: true,
        width: Some(1920),
        height: None,
        pos_x: Some(0),
        pos_y: Some(-3),
    }];
    let text: String = displays_payload(&physical, &[vd("prlx-v2", 1280, 720, 1920, 0, true)])
        .into_iter()
        .collect();
    assert_eq!(
        text,
        "protocol=2\nphysical:\neDP-1,eDP-1,true,true,1920,0,0,-3\nvirtual:\nprlx-v2,true,1280,720,1920,0\n"
    );
}

#[test]
fn enabling_then_listing_gives_the_stored_list() {
    let list = vec![vd("prlx-v1", 1920, 1080, 0, 0, false), vd("prlx-v2", 1280, 720, 0, 0, true)];
    let stored = upsert_virtual_display(&list, &vd("prlx-v1", 2560, 1440, -2560, 0, false));
    let back = parse_virtual_config(&virtual_config_content(&stored)).unwrap();
    assert_eq!(back.len(), 2);
    assert_eq!(back[0].id, "prlx-v2");
    assert_eq!(back[1].id, "prlx-v1");
    assert_eq!((back[1].width, back[1].height, back[1].x, back[1].enabled), (2560, 1440, -2560, true));
}

#[test]
fn disabling_then_listing_drops_the_id() {
    let list = vec![vd("a", 1, 1, 0, 0, true), vd("b", 2, 2, 0, 0, false), vd("c", 3, 3, 0, 0, true)];
    let kept = remove_virtual_display(&list, "b");
    let back = parse_virtual_config(&virtual_config_content(&kept)).unwrap();
    let ids: Vec<&str> = back.iter().map(|d| d.id.as_str()).collect();
    assert_eq!(ids, vec!["a", "c"]);
}

#[test]
fn a_file_read_then_rewritten_reads_the_same() {
    let content = "# id,width,height,x,y,enabled\n  prlx-v1 ,1920,1080,0,0,yes\n\n#x,1,1,1,1,1\r\nprlx-v2,1280,720,-1280,0,0\n";
    let first = parse_virtual_config(content).unwrap();
    assert_eq!(first.len(), 2);
    assert_eq!(first[0].id, "prlx-v1 ");
    let enabled = upsert_virtual_display(&first, &vd("prlx-v3", 800, 600, 0, 0, false));
    let again = parse_virtual_config(&virtual_config_content(&enabled)).unwrap();
    let ids: Vec<&str> = again.iter().map(|d| d.id.as_str()).collect();
    assert_eq!(ids, vec!["prlx-v1 ", "prlx-v2", "prlx-v3"]);
    let removed = remove_virtual_display(&again, "prlx-v1 ");
    let last = parse_virtual_config(&virtual_config_content(&removed)).unwrap();
    let ids: Vec<&str> = last.iter().map(|d| d.id.as_str()).collect();
    assert_eq!(ids, vec!["prlx-v2", "prlx-v3"]);
    assert_eq!((last[0].x, last[0].enabled), (-1280, false));
}
