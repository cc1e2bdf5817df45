use coresplitter::protocol::frame::{Frame, FrameParser, FRAME_HEADER_CLIENT, FRAME_HEADER_SERVER};

#[test]
fn test_frame_roundtrip() {
    let payload = vec![0x01, 0x02, 0x03];
    let frame = Frame::new(FRAME_HEADER_CLIENT, payload.clone());
    let encoded = frame.encode();

    let mut parser = FrameParser::new();
    let frames = parser.feed(&encoded);
    assert_eq!(frames.len(), 1);
    assert_eq!(frames[0], payload);
}

#[test]
fn test_frame_partial_feed() {
    let payload = vec![0x01, 0x02, 0x03];
    let frame = Frame::new(FRAME_HEADER_CLIENT, payload.clone());
    let encoded = frame.encode();

    let mut parser = FrameParser::new();
    let frames1 = parser.feed(&encoded[..2]);
    assert!(frames1.is_empty());

    let frames2 = parser.feed(&encoded[2..]);
    assert_eq!(frames2.len(), 1);
    assert_eq!(frames2[0], payload);
}

#[test]
fn test_multiple_frames() {
    let mut parser = FrameParser::new();
    let mut all_encoded = Vec::new();

    for i in 0..3 {
        let payload = vec![i; 5 + i as usize];
        let frame = Frame::new(FRAME_HEADER_CLIENT, payload);
        all_encoded.extend_from_slice(&frame.encode());
    }

    let frames = parser.feed(&all_encoded);
    assert_eq!(frames.len(), 3);
    assert_eq!(frames[0], vec![0; 5]);
    assert_eq!(frames[1], vec![1; 6]);
    assert_eq!(frames[2], vec![2; 7]);
}

#[test]
fn encode_writes_header_and_little_endian_length() {
    let payload: Vec<u8> = (0..300u32).map(|i| (i % 251) as u8).collect();
    let encoded = Frame::encode_response(&payload);
    assert_eq!(encoded[0], 0x3e);
    assert_eq!(encoded[1], 0x2c);
    assert_eq!(encoded[2], 0x01);
    assert_eq!(&encoded[3..], &payload[..]);
    let cmd = Frame::encode_command(&[0x16]);
    assert_eq!(cmd, vec![0x3c, 0x01, 0x00, 0x16]);
}

#[test]
fn encode_of_empty_payload_is_only_the_header() {
    let frame = Frame::new(FRAME_HEADER_SERVER, Vec::new());
    assert_eq!(frame.encode(), vec![FRAME_HEADER_SERVER, 0, 0]);
    let mut parser = FrameParser::new();
    let frames = parser.feed(&frame.encode());
    assert_eq!(frames, vec![Vec::<u8>::new()]);
}

#[test]
fn parser_skips_bytes_that_open_no_frame() {
    let mut bytes = vec![0x00, 0xff, 0x41];
    bytes.extend_from_slice(&Frame::encode_response(&[0x05, 0x06]));
    let mut parser = FrameParser::new();
    let frames = parser.feed(&bytes);
    assert_eq!(frames, vec![vec![0x05, 0x06]]);
}

#[test]
fn parser_takes_one_byte_at_a_time() {
    let encoded = Frame::encode_command(&[0x0a, 0x0b, 0x0c, 0x0d]);
    let mut parser = FrameParser::new();
    let mut got = Vec::new();
    for b in &encoded {
        got.extend(parser.feed(&[*b]));
    }
    assert_eq!(got, vec![vec![0x0a, 0x0b, 0x0c, 0x0d]]);
}

#[test]
fn reset_forgets_a_partial_frame() {
    let encoded = Frame::encode_command(&[1, 2, 3, 4, 5]);
    let mut parser = FrameParser::new();
    assert!(parser.feed(&encoded[..4]).is_empty());
    parser.reset();
    let frames = parser.feed(&Frame::encode_command(&[9]));
    assert_eq!(frames, vec![vec![9]]);
}
