use parallax::encode::{
    check_packed, check_plane, choose_backend, frame_from_packet, EncodedFormat, EncodedFrame,
    EncoderBackend, H264Config, PendingFrames, RawFrame, RawPixelFormat,
};

fn encoded(byte: u8) -> EncodedFrame {
    EncodedFrame { data: vec![byte], is_keyframe: false, format: EncodedFormat::AnnexB }
}

#[test]
fn raw_frames_are_tightly_packed() {
    let f = RawFrame::new(vec![0; 24], 3, 2, RawPixelFormat::Bgra);
    assert_eq!(f.stride, 12);
    assert_eq!(RawPixelFormat::Rgba.bytes_per_pixel(), 4);
    assert_eq!(check_packed(&f), Ok(()));
    let mut padded = f.clone();
    padded.stride = 16;
    assert_eq!(
        check_packed(&padded),
        Err("Encoder expects tightly packed BGRA/RGBA data".to_string())
    );
}

#[test]
fn software_backend_is_chosen() {
    assert_eq!(choose_backend(&H264Config { prefer_vaapi: true }), EncoderBackend::Software);
    assert_eq!(choose_backend(&H264Config { prefer_vaapi: false }), EncoderBackend::Software);
}

#[test]
fn input_plane_must_match() {
    assert_eq!(check_plane(5, 5), Ok(()));
    assert_eq!(check_plane(0, 5), Err("Input frame plane 0 is empty".to_string()));
    assert_eq!(
        check_plane(4, 5),
        Err("Input plane length mismatch: plane0=4 raw=5".to_string())
    );
}

#[test]
fn packets_become_frames() {
    assert_eq!(frame_from_packet(None, true).unwrap_err(), "Encoded packet missing data");
    assert_eq!(frame_from_packet(Some(Vec::new()), true).unwrap_err(), "Encoded packet was empty");
    let f = frame_from_packet(Some(vec![1, 2]), true).unwrap();
    assert_eq!(f.data, vec![1, 2]);
    assert!(f.is_keyframe);
    assert_eq!(f.format, EncodedFormat::AnnexB);
}

#[test]
fn pending_frames_come_out_oldest_first() {
    let mut q = PendingFrames::new();
    assert_eq!(q.next_encoded().unwrap_err(), "No encoded packets produced");
    q.push_back(encoded(1));
    q.push_back(encoded(2));
    assert_eq!(q.len(), 2);
    assert_eq!(q.pop_front().unwrap().data, vec![1]);
    assert_eq!(q.next_encoded().unwrap().data, vec![2]);
    assert!(q.pop_front().is_none());
}
