use archon::ipc::{decode_frame, encode_frame, length_prefix, read_header, FrameError, MAX_FRAME};

#[test]
fn oversized_length_is_rejected() {
    // A length prefix bigger than MAX_FRAME, with no body.
    let mut bytes = (MAX_FRAME + 1).to_le_bytes().to_vec();
    bytes.extend_from_slice(&[0u8; 8]);
    let err = decode_frame(&bytes).unwrap_err();
    assert!(matches!(err, FrameError::FrameTooLarge(_)));
    assert_eq!(err, FrameError::FrameTooLarge(MAX_FRAME + 1));
}

#[test]
fn two_frames_back_to_back() {
    // The encoded `Ping` and `Lock` requests (their variant indices).
    let ping = [0u8, 0, 0, 0];
    let lock = [1u8, 0, 0, 0];
    let mut buf = encode_frame(&ping).unwrap();
    buf.extend(encode_frame(&lock).unwrap());
    let (first, used) = decode_frame(&buf).unwrap();
    assert_eq!(first, ping.to_vec());
    let (second, used2) = decode_frame(&buf[used..]).unwrap();
    assert_eq!(second, lock.to_vec());
    assert_eq!(used + used2, buf.len());
}

#[test]
fn frame_layout_is_length_then_payload() {
    let f = encode_frame(b"abc").unwrap();
    assert_eq!(f, vec![3, 0, 0, 0, b'a', b'b', b'c']);
    assert_eq!(length_prefix(0x01020304), vec![4, 3, 2, 1]);
    assert_eq!(read_header(&[4, 3, 2, 1]), Err(FrameError::FrameTooLarge(0x01020304)));
    assert_eq!(read_header(&[0, 0, 64, 0]), Ok(MAX_FRAME));
}

#[test]
fn short_input_is_truncated() {
    assert_eq!(decode_frame(&[1, 0, 0]), Err(FrameError::Truncated));
    assert_eq!(decode_frame(&[5, 0, 0, 0, 1, 2]), Err(FrameError::Truncated));
    assert_eq!(decode_frame(&[0, 0, 0, 0]), Ok((vec![], 4)));
}

#[test]
fn oversized_payload_is_refused_when_encoding() {
    let big = vec![0u8; MAX_FRAME as usize + 1];
    assert_eq!(encode_frame(&big), Err(FrameError::FrameTooLarge(MAX_FRAME + 1)));
    let max = vec![7u8; MAX_FRAME as usize];
    let f = encode_frame(&max).unwrap();
    let (p, used) = decode_frame(&f).unwrap();
    assert_eq!(p.len(), MAX_FRAME as usize);
    assert_eq!(used, MAX_FRAME as usize + 4);
}
