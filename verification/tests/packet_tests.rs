use parallax::encode::{EncodedFormat, EncodedFrame};
use parallax::packet::{
    chunk_count, contains_config_nal, find_start_code, packetize_frame, PacketHeader, UdpPacket,
    FLAG_CONFIG, FLAG_END_OF_FRAME, FLAG_KEYFRAME, MAX_PAYLOAD_SIZE,
};

fn frame(data: Vec<u8>, is_keyframe: bool) -> EncodedFrame {
    EncodedFrame { data, is_keyframe, format: EncodedFormat::AnnexB }
}

#[test]
fn header_encodes_big_endian_fields() {
    let h = PacketHeader {
        flags: 5,
        stream_id: 1,
        frame_id: 0x0102_0304,
        packet_id: 2,
        packet_count: 3,
        payload_type: 1,
        payload_length: 0x0102,
    };
    assert_eq!(
        h.encode(),
        [0x50, 0x52, 0x4c, 0x58, 1, 24, 0, 5, 0, 0, 0, 1, 1, 2, 3, 4, 0, 2, 0, 3, 1, 0, 1, 2]
    );
}

#[test]
fn packet_bytes_are_header_then_payload() {
    let p = UdpPacket {
        header: PacketHeader {
            flags: 4,
            stream_id: 1,
            frame_id: 7,
            packet_id: 0,
            packet_count: 1,
            payload_type: 1,
            payload_length: 2,
        },
        payload: vec![0xaa, 0xbb],
    };
    let bytes = p.to_bytes();
    assert_eq!(bytes.len(), 26);
    assert_eq!(&bytes[..4], b"PRLX");
    assert_eq!(&bytes[24..], &[0xaa, 0xbb]);
}

#[test]
fn chunk_count_rounds_up_and_counts_empty_as_one() {
    assert_eq!(chunk_count(0, 1176), 1);
    assert_eq!(chunk_count(1, 1176), 1);
    assert_eq!(chunk_count(1176, 1176), 1);
    assert_eq!(chunk_count(1177, 1176), 2);
    assert_eq!(chunk_count(10_000_000, 1), 0xffff);
}

#[test]
fn start_codes_of_three_and_four_bytes() {
    let three = find_start_code(&[0, 0, 1, 0x67], 0).unwrap();
    assert_eq!((three.code_start, three.code_len), (0, 3));
    let four = find_start_code(&[9, 0, 0, 0, 1, 0x68], 0).unwrap();
    assert_eq!((four.code_start, four.code_len), (1, 4));
    assert!(find_start_code(&[0, 0, 1], 0).is_none());
    assert!(find_start_code(&[0, 0, 1, 0x67], 1).is_none());
}

#[test]
fn config_nal_is_a_sequence_or_picture_parameter_set() {
    assert!(contains_config_nal(&[0, 0, 0, 1, 0x67, 1, 2]));
    assert!(contains_config_nal(&[0, 0, 1, 0x65, 0, 0, 1, 0x68, 0]));
    assert!(!contains_config_nal(&[0, 0, 1, 0x65, 1, 2, 3]));
    assert!(!contains_config_nal(&[]));
}

#[test]
fn frame_splits_into_mtu_sized_packets() {
    let mut data = vec![0u8, 0, 0, 1, 0x67];
    data.resize(2500, 7);
    let packets = packetize_frame(&frame(data.clone(), true), 42);
    assert_eq!(packets.len(), 3);
    assert_eq!(packets[0].payload.len(), MAX_PAYLOAD_SIZE);
    assert_eq!(packets[1].payload.len(), MAX_PAYLOAD_SIZE);
    assert_eq!(packets[2].payload.len(), 2500 - 2 * MAX_PAYLOAD_SIZE);
    for (i, p) in packets.iter().enumerate() {
        assert_eq!(p.header.packet_id, i as u16);
        assert_eq!(p.header.packet_count, 3);
        assert_eq!(p.header.frame_id, 42);
        assert_eq!(p.header.stream_id, 1);
        assert_eq!(p.header.payload_type, 1);
        assert_eq!(p.header.payload_length as usize, p.payload.len());
    }
    assert_eq!(packets[0].header.flags, FLAG_KEYFRAME | FLAG_CONFIG);
    assert_eq!(packets[2].header.flags, FLAG_KEYFRAME | FLAG_CONFIG | FLAG_END_OF_FRAME);
    // the payloads put back together give the frame
    let joined: Vec<u8> = packets.iter().flat_map(|p| p.payload.clone()).collect();
    assert_eq!(joined, data);
}

#[test]
fn empty_frame_is_one_end_packet() {
    let packets = packetize_frame(&frame(Vec::new(), false), 3);
    assert_eq!(packets.len(), 1);
    assert_eq!(packets[0].header.flags, FLAG_END_OF_FRAME);
    assert_eq!(packets[0].header.packet_count, 1);
    assert_eq!(packets[0].header.payload_length, 0);
    assert!(packets[0].payload.is_empty());
}

#[test]
fn every_packet_fits_the_mtu() {
    let data = vec![1u8; 5000];
    for p in packetize_frame(&frame(data, false), 0) {
        assert!(p.to_bytes().len() <= 1200);
    }
}

#[test]
fn frame_ids_follow_one_another() {
    use_counter();
}

fn use_counter() {
    let mut counter = parallax::packet::FrameCounter::new();
    let a = counter.next_id();
    let b = counter.next_id();
    assert_eq!((a, b), (0, 1));
    let p1 = packetize_frame(&frame(vec![1u8; 3000], false), a);
    let p2 = packetize_frame(&frame(vec![2u8; 10], false), b);
    assert!(p1.iter().all(|p| p.header.frame_id == 0));
    assert_eq!(p2[0].header.frame_id, p1[0].header.frame_id.wrapping_add(1));
    assert_eq!(parallax::packet::MAX_FRAME_LEN, 65535 * 1176);
}
