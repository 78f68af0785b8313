use dap::framing::{decode_frame, encode_frame, end_of_stream, TransportError};

#[test]
fn encodes_the_exact_wire_bytes() {
    assert_eq!(encode_frame(b"{}"), b"Content-Length: 2\r\n\r\n{}".to_vec());
}

#[test]
fn encodes_an_empty_body() {
    assert_eq!(encode_frame(b""), b"Content-Length: 0\r\n\r\n".to_vec());
}

#[test]
fn encodes_multi_digit_lengths() {
    let body = vec![b'x'; 1234];
    let frame = encode_frame(&body);
    assert!(frame.starts_with(b"Content-Length: 1234\r\n\r\n"));
    assert_eq!(frame.len(), 24 + 1234);
}

#[test]
fn decodes_what_was_encoded() {
    let body = br#"{"seq":7,"type":"request","command":"launch","arguments":{}}"#;
    let frame = encode_frame(body);
    assert_eq!(decode_frame(&frame), Ok((body.to_vec(), frame.len())));
}

#[test]
fn round_trip_for_many_lengths() {
    for len in [0usize, 1, 9, 10, 11, 99, 100, 101, 999, 1000, 65536] {
        let body: Vec<u8> = (0..len).map(|i| (i % 251) as u8).collect();
        let frame = encode_frame(&body);
        assert_eq!(decode_frame(&frame), Ok((body, frame.len())));
    }
}

#[test]
fn decodes_only_the_first_frame() {
    let mut buf = encode_frame(b"first");
    let first_len = buf.len();
    buf.extend_from_slice(&encode_frame(b"second"));
    assert_eq!(decode_frame(&buf), Ok((b"first".to_vec(), first_len)));
    assert_eq!(
        decode_frame(&buf[first_len..]),
        Ok((b"second".to_vec(), buf.len() - first_len))
    );
}

#[test]
fn accepts_leading_zeros_in_the_length() {
    assert_eq!(
        decode_frame(b"Content-Length: 0003\r\n\r\nabcdef"),
        Ok((b"abc".to_vec(), 27))
    );
}

#[test]
fn truncated_body_is_corrupt() {
    assert_eq!(
        decode_frame(b"Content-Length: 5\r\n\r\nabc"),
        Err(TransportError::FrameCorrupt)
    );
}

#[test]
fn malformed_header_is_corrupt() {
    assert_eq!(decode_frame(b""), Err(TransportError::FrameCorrupt));
    assert_eq!(decode_frame(b"Content-Length: "), Err(TransportError::FrameCorrupt));
    assert_eq!(decode_frame(b"Content-Length: \r\n\r\n"), Err(TransportError::FrameCorrupt));
    assert_eq!(decode_frame(b"content-length: 2\r\n\r\n{}"), Err(TransportError::FrameCorrupt));
    assert_eq!(decode_frame(b"Content-Length: 2\n\n{}"), Err(TransportError::FrameCorrupt));
    assert_eq!(decode_frame(b"Content-Length: 2\r\n\r{}"), Err(TransportError::FrameCorrupt));
    assert_eq!(decode_frame(b"Content-Length: 2x\r\n\r\n{}"), Err(TransportError::FrameCorrupt));
    assert_eq!(decode_frame(b"Content-Length: -2\r\n\r\n{}"), Err(TransportError::FrameCorrupt));
}

#[test]
fn absurd_length_is_corrupt() {
    assert_eq!(
        decode_frame(b"Content-Length: 99999999999999999999999999999999999999999\r\n\r\n{}"),
        Err(TransportError::FrameCorrupt)
    );
}

#[test]
fn end_of_stream_between_frames_is_a_disconnect() {
    assert_eq!(end_of_stream(b""), TransportError::Disconnected);
}

#[test]
fn end_of_stream_inside_a_frame_is_corrupt() {
    let frame = encode_frame(b"{}");
    assert_eq!(end_of_stream(&frame[..5]), TransportError::FrameCorrupt);
    assert_eq!(end_of_stream(&frame[..frame.len() - 1]), TransportError::FrameCorrupt);
}
