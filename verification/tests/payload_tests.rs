use parallax::payloads::{
    is_display_used_by_running_stream, parse_add_display_payload, parse_optional_stream_id_payload,
    parse_pair_request, parse_remove_display_payload, parse_set_stream_config_payload,
};

#[test]
fn pair_requests() {
    assert_eq!(parse_pair_request(b"123456"), Ok(("123456".to_string(), None)));
    assert_eq!(parse_pair_request(b"123456|9000"), Ok(("123456".to_string(), Some(9000))));
    assert_eq!(parse_pair_request(b"a|b|9000"), Err(()));
    assert_eq!(parse_pair_request(b"123456|70000"), Err(()));
    assert_eq!(parse_pair_request(&[0xff]), Err(()));
}

#[test]
fn stream_id_payloads() {
    assert_eq!(parse_optional_stream_id_payload(b""), Ok(1));
    assert_eq!(parse_optional_stream_id_payload(b"  \n"), Ok(1));
    assert_eq!(parse_optional_stream_id_payload(b"stream_id=3"), Ok(3));
    assert_eq!(parse_optional_stream_id_payload(b" 2 "), Ok(2));
    assert_eq!(
        parse_optional_stream_id_payload(b"stream_id=x"),
        Err("invalid stream_id".to_string())
    );
    assert_eq!(
        parse_optional_stream_id_payload(b"id=2"),
        Err("stream payload expects stream_id or stream_id=<id>".to_string())
    );
    assert_eq!(parse_optional_stream_id_payload(&[0xc3]), Err("invalid stream payload".to_string()));
}

#[test]
fn stream_config_payloads() {
    let p = parse_set_stream_config_payload(
        b"stream_id=2\n display=prlx-v2 \n\nbind_addr=0.0.0.0:6001\ntarget_addr=10.0.0.2:6001\nprefer_vaapi=no\n",
    )
    .unwrap();
    assert_eq!(p.stream_id, 2);
    assert_eq!(p.display.as_deref(), Some("prlx-v2"));
    assert_eq!(p.bind_addr.as_deref(), Some("0.0.0.0:6001"));
    assert_eq!(p.target_addr.as_deref(), Some("10.0.0.2:6001"));
    assert_eq!(p.prefer_vaapi, Some(false));
    let q = parse_set_stream_config_payload(b"stream_id=1\nprefer_vaapi=1").unwrap();
    assert_eq!(q.prefer_vaapi, Some(true));
    assert!(q.display.is_none());
}

#[test]
fn stream_config_errors() {
    let err = |p: &[u8]| parse_set_stream_config_payload(p).err().unwrap();
    assert_eq!(err(&[0xff]), "invalid set stream payload");
    assert_eq!(err(b"display=x"), "stream_id is required");
    assert_eq!(err(b"stream_id=1\nnoequals"), "set stream payload expects key=value lines");
    assert_eq!(err(b"stream_id=one"), "invalid stream_id");
    assert_eq!(err(b"stream_id=1\nprefer_vaapi=maybe"), "invalid prefer_vaapi");
    assert_eq!(err(b"stream_id=1\ncolor=red"), "unknown key in stream config payload: color");
}

#[test]
fn add_display_payloads() {
    let d = parse_add_display_payload(b"prlx-v2,1920,1080,-1920,0").unwrap();
    assert_eq!(d.id, "prlx-v2");
    assert_eq!((d.width, d.height, d.x, d.y, d.enabled), (1920, 1080, -1920, 0, true));
    let err = |p: &[u8]| parse_add_display_payload(p).err().unwrap();
    assert_eq!(err(&[0xff]), "invalid add display payload");
    assert_eq!(err(b"a,1,2,3"), "add payload format: id,width,height,x,y");
    assert_eq!(err(b"a,w,2,3,4"), "invalid width");
    assert_eq!(err(b"a,1,h,3,4"), "invalid height");
    assert_eq!(err(b"a,1,2,x,4"), "invalid x");
    assert_eq!(err(b"a,1,2,3,y"), "invalid y");
}

#[test]
fn remove_display_payloads() {
    assert_eq!(parse_remove_display_payload(b" prlx-v2\n"), Ok("prlx-v2".to_string()));
    assert_eq!(parse_remove_display_payload(b"  "), Err("display id required".to_string()));
    assert_eq!(
        parse_remove_display_payload(&[0xff]),
        Err("invalid remove display payload".to_string())
    );
}

#[test]
fn running_streams_hold_their_display() {
    let list = "protocol=2\nstreams:\n1,:0,a,b,true,false\n2,prlx-v2,a,b,true,yes,0,0,0.00,0\n3,prlx-v3,a,b\n";
    assert!(is_display_used_by_running_stream(list, "prlx-v2"));
    assert!(!is_display_used_by_running_stream(list, ":0"));
    assert!(!is_display_used_by_running_stream(list, "prlx-v3"));
    assert!(!is_display_used_by_running_stream("", "prlx-v2"));
}
