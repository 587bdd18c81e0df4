use isla_client::codec::{decode_length, read_message, write_message, FrameError};

#[test]
fn frames_empty_payload() {
    let framed = write_message(&[]).unwrap();
    assert_eq!(framed, vec![0, 0, 0, 0]);
}

#[test]
fn frames_short_payload_little_endian() {
    let framed = write_message(b"abc").unwrap();
    assert_eq!(framed, vec![3, 0, 0, 0, b'a', b'b', b'c']);
}

#[test]
fn frames_payload_longer_than_one_byte_length() {
    let payload = vec![7u8; 300];
    let framed = write_message(&payload).unwrap();
    assert_eq!(framed[0], 44);
    assert_eq!(framed[1], 1);
    assert_eq!(framed[2], 0);
    assert_eq!(framed[3], 0);
    assert_eq!(&framed[4..], &payload[..]);
}

#[test]
fn round_trips_any_framed_payload() {
    let payload = b"execute 10cf3".to_vec();
    let framed = write_message(&payload).unwrap();
    let (back, used) = read_message(&framed).unwrap();
    assert_eq!(back, payload);
    assert_eq!(used, framed.len());
}

#[test]
fn round_trips_with_trailing_data() {
    let framed = write_message(b"hi").unwrap();
    let mut buf = framed.clone();
    buf.extend_from_slice(b"rest of the stream");
    let (back, used) = read_message(&buf).unwrap();
    assert_eq!(back, b"hi".to_vec());
    assert_eq!(used, 6);
}

#[test]
fn rejects_negative_length_prefix() {
    assert_eq!(decode_length(&[0, 0, 0, 0x80]), Err(FrameError::NegativeLength));
    assert_eq!(decode_length(&[0xff, 0xff, 0xff, 0xff]), Err(FrameError::NegativeLength));
    assert_eq!(read_message(&[1, 2, 3, 0xff, 9, 9]), Err(FrameError::NegativeLength));
}

#[test]
fn accepts_largest_signed_length_prefix() {
    assert_eq!(decode_length(&[0xff, 0xff, 0xff, 0x7f]), Ok(0x7fff_ffff));
}

#[test]
fn decodes_length_little_endian() {
    assert_eq!(decode_length(&[0x78, 0x56, 0x34, 0x12]), Ok(0x1234_5678));
}

#[test]
fn rejects_truncated_prefix() {
    assert_eq!(read_message(&[1, 0]), Err(FrameError::Truncated));
}

#[test]
fn rejects_truncated_payload() {
    assert_eq!(read_message(&[5, 0, 0, 0, b'a', b'b']), Err(FrameError::Truncated));
}
