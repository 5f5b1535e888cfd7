use parallax::payloads::is_display_used_by_running_stream;
use parallax::streams::{
    derive_stream_config, normalize_target, offset_port, parse_port, split_host_port, StreamConfig,
    StreamMetrics, StreamTable,
};

fn base(target: &str) -> StreamConfig {
    StreamConfig {
        display: ":0".to_string(),
        bind_addr: "0.0.0.0:5000".to_string(),
        target_addr: target.to_string(),
        prefer_vaapi: true,
    }
}

fn zero_metrics() -> Vec<StreamMetrics> {
    (0..3)
        .map(|_| StreamMetrics { width: 0, height: 0, fps_x100: 0, bitrate_kbps: 0 })
        .collect()
}

#[test]
fn ports_move_up_by_the_offset() {
    assert_eq!(offset_port("127.0.0.1:5000", 0), "127.0.0.1:5000");
    assert_eq!(offset_port("127.0.0.1:5000", 2), "127.0.0.1:5002");
    assert_eq!(offset_port("a:b:10", 2), "a:b:12");
    assert_eq!(offset_port("host:65535", 1), "host:65535");
    assert_eq!(offset_port("nohost", 3), "nohost");
    assert_eq!(offset_port("h:x", 3), "h:x");
    // the offset is taken modulo 65536, and the port is written anew
    assert_eq!(offset_port("h:010", 65536), "h:10");
    assert_eq!(offset_port("h:10", 65537), "h:11");
}

#[test]
fn host_and_port_split_at_the_last_colon() {
    assert_eq!(split_host_port("[::1]:80"), Some(("[::1]".to_string(), 80)));
    assert_eq!(split_host_port("x:65536"), None);
    assert_eq!(split_host_port("nocolon"), None);
    assert_eq!(parse_port("x:+80"), Some(80));
    assert_eq!(parse_port("x:"), None);
}

#[test]
fn blank_or_zero_port_targets_are_unset() {
    assert_eq!(normalize_target("  ".to_string()), None);
    assert_eq!(normalize_target("1.2.3.4:0".to_string()), None);
    assert_eq!(normalize_target("1.2.3.4:0 ".to_string()), None);
    assert_eq!(normalize_target(" 1.2.3.4:5 ".to_string()), Some(" 1.2.3.4:5 ".to_string()));
}

#[test]
fn later_streams_get_their_own_display_and_ports() {
    let c = derive_stream_config(&base("127.0.0.1:5000"), 2);
    assert_eq!(c.display, "prlx-v2");
    assert_eq!(c.bind_addr, "0.0.0.0:5001");
    assert_eq!(c.target_addr, "127.0.0.1:5001");
    assert!(c.prefer_vaapi);
    let first = derive_stream_config(&base("127.0.0.1:5000"), 1);
    assert_eq!(first.display, ":0");
    assert_eq!(first.bind_addr, "0.0.0.0:5000");
}

#[test]
fn new_table_lists_three_idle_streams() {
    let table = StreamTable::new(&base("127.0.0.1:5000"));
    assert_eq!(table.len(), 3);
    assert_eq!(
        table.list_streams(&zero_metrics()),
        "protocol=2\nstreams:\n\
         1,:0,0.0.0.0:5000,127.0.0.1:5000,true,false,0,0,0.00,0\n\
         2,prlx-v2,0.0.0.0:5001,127.0.0.1:5001,true,false,0,0,0.00,0\n\
         3,prlx-v3,0.0.0.0:5002,127.0.0.1:5002,true,false,0,0,0.00,0\n"
    );
}

#[test]
fn metrics_show_in_the_list() {
    let mut table = StreamTable::new(&base("127.0.0.1:5000"));
    table.start_stream(1).unwrap();
    let mut m = zero_metrics();
    m[0] = StreamMetrics { width: 1920, height: 1080, fps_x100: 5994, bitrate_kbps: 4000 };
    m[1] = StreamMetrics { width: 0, height: 0, fps_x100: 505, bitrate_kbps: 0 };
    let list = table.list_streams(&m);
    assert!(list.contains("\n1,:0,0.0.0.0:5000,127.0.0.1:5000,true,true,1920,1080,59.94,4000\n"));
    assert!(list.contains("\n2,prlx-v2,0.0.0.0:5001,127.0.0.1:5001,true,false,0,0,5.05,0\n"));
}

#[test]
fn start_and_stop_one_stream() {
    let mut table = StreamTable::new(&base("127.0.0.1:5000"));
    let config = table.start_stream(1).unwrap().unwrap();
    assert_eq!(config.display, ":0");
    assert_eq!(config.target_addr, "127.0.0.1:5000");
    assert!(table.start_stream(1).unwrap().is_none());
    assert_eq!(table.stop_stream(1), Ok(()));
    assert_eq!(table.stop_stream(1), Err("stream not running".to_string()));
    assert_eq!(table.start_stream(4).unwrap_err(), "stream_id not found");
    assert_eq!(table.start_stream(0).unwrap_err(), "stream_id not found");
    assert_eq!(table.stop_stream(4), Err("stream_id not found".to_string()));
}

#[test]
fn starting_one_stream_leaves_the_others() {
    let mut table = StreamTable::new(&base("127.0.0.1:5000"));
    table.start_stream(2).unwrap();
    let list = table.list_streams(&zero_metrics());
    assert!(list.contains("\n1,:0,0.0.0.0:5000,127.0.0.1:5000,true,false,"));
    assert!(list.contains("\n2,prlx-v2,0.0.0.0:5001,127.0.0.1:5001,true,true,"));
    assert!(list.contains("\n3,prlx-v3,0.0.0.0:5002,127.0.0.1:5002,true,false,"));
}

#[test]
fn no_target_waits_for_a_client() {
    let mut table = StreamTable::new(&base("127.0.0.1:0"));
    assert_eq!(
        table.start_stream(1).unwrap_err(),
        "no target configured; waiting for client"
    );
    let restart = table.set_target("10.0.0.5:9000");
    assert!(restart.is_empty());
    let config = table.start_stream(2).unwrap().unwrap();
    assert_eq!(config.target_addr, "10.0.0.5:9001");
    assert_eq!(config.display, "prlx-v2");
}

#[test]
fn setting_the_target_restarts_running_streams() {
    let mut table = StreamTable::new(&base("127.0.0.1:5000"));
    table.start_stream(1).unwrap();
    table.start_stream(3).unwrap();
    let restart = table.set_target("10.0.0.5:9000");
    assert_eq!(restart, vec![1, 3]);
    let list = table.list_streams(&zero_metrics());
    assert!(list.contains("\n1,:0,0.0.0.0:5000,10.0.0.5:9000,"));
    assert!(list.contains("\n3,prlx-v3,0.0.0.0:5002,10.0.0.5:9002,"));
}

#[test]
fn stream_config_changes_report_when_to_restart() {
    let mut table = StreamTable::new(&base("127.0.0.1:5000"));
    assert_eq!(
        table.set_stream_config(2, Some("prlx-v9".to_string()), None, None, Some(false)),
        Ok(false)
    );
    table.start_stream(2).unwrap();
    assert_eq!(table.set_stream_config(2, Some("prlx-v9".to_string()), None, None, None), Ok(false));
    assert_eq!(
        table.set_stream_config(2, None, None, Some("10.1.1.1:7000".to_string()), None),
        Ok(true)
    );
    assert_eq!(
        table.set_stream_config(5, None, None, None, None),
        Err("stream_id not found".to_string())
    );
    let list = table.list_streams(&zero_metrics());
    assert!(list.contains("\n2,prlx-v9,0.0.0.0:5001,10.1.1.1:7000,false,true,"));
}

#[test]
fn the_list_shows_which_displays_are_in_use() {
    let mut table = StreamTable::new(&base("127.0.0.1:5000"));
    table.start_stream(2).unwrap();
    let list = table.list_streams(&zero_metrics());
    assert!(is_display_used_by_running_stream(&list, "prlx-v2"));
    assert!(!is_display_used_by_running_stream(&list, "prlx-v3"));
    assert!(!is_display_used_by_running_stream(&list, ":0"));
    table.stop_stream(2).unwrap();
    let list = table.list_streams(&zero_metrics());
    assert!(!is_display_used_by_running_stream(&list, "prlx-v2"));
}
