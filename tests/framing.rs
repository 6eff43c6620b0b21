use dora_daemon_core::framing::{decode_frame, encode_frame, end_of_stream, encode_header, header_body_len, FrameError};

#[test]
fn frame_has_little_endian_header() {
    let f = encode_frame(&[1, 2, 3]);
    assert_eq!(f, vec![3, 0, 0, 0, 0, 0, 0, 0, 1, 2, 3]);
}

#[test]
fn header_of_large_length() {
    assert_eq!(encode_header(0x0102_0304_0506_0708), vec![8, 7, 6, 5, 4, 3, 2, 1]);
    assert_eq!(header_body_len(&[8, 7, 6, 5, 4, 3, 2, 1]), 0x0102_0304_0506_0708);
    assert_eq!(header_body_len(&[255; 8]), u64::MAX);
}

#[test]
fn round_trip_empty_payload() {
    let f = encode_frame(&[]);
    assert_eq!(f.len(), 8);
    assert_eq!(decode_frame(&f), Ok((vec![], 8)));
}

#[test]
fn round_trip_with_trailing_bytes() {
    let payload: Vec<u8> = (0..300u32).map(|i| (i % 251) as u8).collect();
    let mut f = encode_frame(&payload);
    f.extend_from_slice(&[9, 9, 9]);
    assert_eq!(decode_frame(&f), Ok((payload.clone(), 8 + payload.len())));
}

#[test]
fn empty_stream_is_peer_closed() {
    assert_eq!(decode_frame(&[]), Err(FrameError::PeerClosed));
}

#[test]
fn partial_header_is_truncated() {
    assert_eq!(decode_frame(&[5, 0, 0]), Err(FrameError::Truncated));
}

#[test]
fn partial_payload_is_truncated() {
    assert_eq!(decode_frame(&[5, 0, 0, 0, 0, 0, 0, 0, 1, 2]), Err(FrameError::Truncated));
}

#[test]
fn end_of_stream_between_or_inside_frames() {
    assert_eq!(end_of_stream(0), FrameError::PeerClosed);
    assert_eq!(end_of_stream(3), FrameError::Truncated);
    assert_eq!(end_of_stream(8), FrameError::Truncated);
}
