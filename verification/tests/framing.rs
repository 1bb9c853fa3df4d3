use foxglove_webtransport::framing::{
    encode_binary_frame, encode_compressed_binary_frame, encode_datagram_frame, encode_json_frame,
    parse_datagram_frame, parse_stream_header, StreamOpCode, DATAGRAM_HEADER_SIZE,
    MAX_MESSAGE_SIZE, STREAM_FRAME_HEADER_SIZE,
};
use foxglove_webtransport::le::{read_u16, read_u32, read_u64};

#[test]
fn test_datagram_roundtrip() {
    let payload = b"compressed data here";
    let frame = encode_datagram_frame(42, 7, payload, 1200).expect("should fit");
    let (header, decoded_payload) = parse_datagram_frame(&frame).expect("should parse");
    assert_eq!(header.channel_id, 42);
    assert_eq!(header.sequence, 7);
    assert_eq!(header.flags, 0);
    assert_eq!(decoded_payload, payload);
}

#[test]
fn test_datagram_too_large() {
    let payload = vec![0u8; 1200];
    assert!(encode_datagram_frame(1, 0, &payload, 1200).is_none());
}

#[test]
fn datagram_limit_is_inclusive() {
    let payload = vec![0u8; 1186];
    let frame = encode_datagram_frame(1, 0, &payload, 1200).unwrap();
    assert_eq!(frame.len(), 1200);
    let payload = vec![0u8; 1187];
    assert!(encode_datagram_frame(1, 0, &payload, 1200).is_none());
    assert!(encode_datagram_frame(1, 0, &[], 13).is_none());
    assert_eq!(encode_datagram_frame(1, 0, &[], 14).unwrap().len(), DATAGRAM_HEADER_SIZE);
    assert!(encode_datagram_frame(1, 0, &[], 0).is_none());
}

#[test]
fn datagram_bytes_are_little_endian() {
    let frame = encode_datagram_frame(0x0102030405060708, 0x0a0b0c0d, &[0xff], 100).unwrap();
    assert_eq!(
        &frame[..],
        &[8, 7, 6, 5, 4, 3, 2, 1, 0x0d, 0x0c, 0x0b, 0x0a, 0, 0, 0xff]
    );
}

#[test]
fn datagram_with_a_broken_header_is_refused() {
    assert!(parse_datagram_frame(&[0u8; 13]).is_none());
    assert!(parse_datagram_frame(&[]).is_none());
    let (header, payload) = parse_datagram_frame(&[1, 0, 0, 0, 0, 0, 0, 0, 2, 0, 0, 0, 3, 1]).unwrap();
    assert_eq!((header.channel_id, header.sequence, header.flags), (1, 2, 0x103));
    assert!(payload.is_empty());
}

#[test]
fn json_frame_bytes() {
    let frame = encode_json_frame("{}");
    assert_eq!(&frame[..], &[1, 2, 0, 0, 0, b'{', b'}']);
    let frame = encode_json_frame("\u{e9}");
    assert_eq!(&frame[..], &[1, 2, 0, 0, 0, 0xc3, 0xa9]);
}

#[test]
fn binary_frame_bytes() {
    assert_eq!(&encode_binary_frame(&[9, 8, 7])[..], &[2, 3, 0, 0, 0, 9, 8, 7]);
    assert_eq!(&encode_binary_frame(&[])[..], &[2, 0, 0, 0, 0]);
}

#[test]
fn compressed_frame_bytes() {
    let payload = vec![5u8; 0x1_0203];
    let frame = encode_compressed_binary_frame(&payload);
    assert_eq!(&frame[..5], &[3, 3, 2, 1, 0]);
    assert_eq!(&frame[5..], &payload[..]);
}

#[test]
fn stream_header_announces_the_frame() {
    let frame = encode_binary_frame(&[0u8; 300]);
    let mut header = [0u8; STREAM_FRAME_HEADER_SIZE];
    header.copy_from_slice(&frame[..STREAM_FRAME_HEADER_SIZE]);
    assert_eq!(parse_stream_header(&header), (2, 300));
    assert_eq!(parse_stream_header(&[9, 0xff, 0xff, 0xff, 0xff]), (9, u32::MAX));
}

#[test]
fn opcodes_and_their_bytes() {
    assert_eq!(StreamOpCode::from_u8(0), None);
    assert_eq!(StreamOpCode::from_u8(1), Some(StreamOpCode::Text));
    assert_eq!(StreamOpCode::from_u8(2), Some(StreamOpCode::Binary));
    assert_eq!(StreamOpCode::from_u8(3), Some(StreamOpCode::CompressedBinary));
    assert_eq!(StreamOpCode::from_u8(4), None);
    assert_eq!(StreamOpCode::from_u8(255), None);
    for op in [StreamOpCode::Text, StreamOpCode::Binary, StreamOpCode::CompressedBinary] {
        assert_eq!(StreamOpCode::from_u8(op.to_u8()), Some(op));
    }
}

#[test]
fn the_message_limit_is_16_mib() {
    assert_eq!(MAX_MESSAGE_SIZE, 16_777_216);
}

#[test]
fn little_endian_readers() {
    let data = [0x11, 0x22, 0x33, 0x44, 0x55, 0x66, 0x77, 0x88, 0x99];
    assert_eq!(read_u16(&data, 1), 0x3322);
    assert_eq!(read_u32(&data, 0), 0x44332211);
    assert_eq!(read_u64(&data, 1), 0x9988776655443322);
}
