use parallax::protocol::{decode_header, Frame, MessageType};

#[test]
fn frame_encode_writes_header_and_payload() {
    let frame = Frame::new(MessageType::Ping, vec![1, 2, 3]);
    let bytes = frame.encode().unwrap();
    assert_eq!(bytes, vec![1, 0x20, 0, 3, 1, 2, 3]);
}

#[test]
fn oversized_payload_is_refused() {
    let frame = Frame::new(MessageType::Streams, vec![0u8; 0x1_0000]);
    assert_eq!(frame.encode().unwrap_err(), "Payload too large: 65536 bytes");
}

#[test]
fn message_codes_read_back() {
    for code in 0u8..=255 {
        if let Ok(t) = MessageType::try_from(code) {
            assert_eq!(t.code(), code);
        }
    }
    assert_eq!(MessageType::try_from(0x10).unwrap(), MessageType::StartStream);
    assert_eq!(MessageType::try_from(0x34).unwrap(), MessageType::DisplayOpAck);
    assert_eq!(MessageType::try_from(0x99).unwrap_err(), "Unknown message type: 153");
}

#[test]
fn header_decodes_type_and_length() {
    let (t, n) = decode_header(&[1, 0x15, 0x01, 0x02]).unwrap();
    assert_eq!(t, MessageType::Streams);
    assert_eq!(n, 258);
    assert_eq!(decode_header(&[2, 0x15, 0, 0]).unwrap_err(), "Unsupported protocol version: 2");
    assert_eq!(decode_header(&[1, 0x99, 0, 0]).unwrap_err(), "Unknown message type: 153");
}

#[test]
fn encoded_frame_header_reads_back() {
    let frame = Frame::new(MessageType::AuthChallenge, vec![9; 32]);
    let bytes = frame.encode().unwrap();
    let header = [bytes[0], bytes[1], bytes[2], bytes[3]];
    let (t, n) = decode_header(&header).unwrap();
    assert_eq!(t, MessageType::AuthChallenge);
    assert_eq!(n, 32);
    assert_eq!(&bytes[4..], &frame.payload[..]);
}

#[test]
fn frame_bytes_in_a_stream_read_back() {
    let first = Frame::new(MessageType::Error, b"bad".to_vec());
    let second = Frame::new(MessageType::Ping, Vec::new());
    let mut stream = first.encode().unwrap();
    stream.extend(second.encode().unwrap());
    let (t, n) = decode_header(&[stream[0], stream[1], stream[2], stream[3]]).unwrap();
    assert_eq!((t, n), (MessageType::Error, 3));
    assert_eq!(&stream[4..4 + n], b"bad");
    let rest = &stream[4 + n..];
    let (t2, n2) = decode_header(&[rest[0], rest[1], rest[2], rest[3]]).unwrap();
    assert_eq!((t2, n2), (MessageType::Ping, 0));
}
