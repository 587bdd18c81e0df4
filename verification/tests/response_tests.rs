use isla_client::response::{decode_response, write_answer, DecodeError, Response};

#[test]
fn encodes_error_as_single_zero_byte() {
    assert_eq!(write_answer(&Response::Error).unwrap(), vec![0]);
}

#[test]
fn encodes_version_with_framed_payload() {
    let out = write_answer(&Response::Version(b"dev-abc".to_vec())).unwrap();
    assert_eq!(out, vec![1, 7, 0, 0, 0, b'd', b'e', b'v', b'-', b'a', b'b', b'c']);
}

#[test]
fn encodes_start_traces_as_single_two_byte() {
    assert_eq!(write_answer(&Response::StartTraces).unwrap(), vec![2]);
}

#[test]
fn encodes_trace_with_flag_before_framed_events() {
    let out = write_answer(&Response::Trace(true, b"ev".to_vec())).unwrap();
    assert_eq!(out, vec![3, 1, 2, 0, 0, 0, b'e', b'v']);
    let out = write_answer(&Response::Trace(false, vec![])).unwrap();
    assert_eq!(out, vec![3, 0, 0, 0, 0, 0]);
}

#[test]
fn encodes_end_traces_as_single_four_byte() {
    assert_eq!(write_answer(&Response::EndTraces).unwrap(), vec![4]);
}

#[test]
fn decodes_every_encoded_variant_byte_exact() {
    let samples = vec![
        Response::Error,
        Response::Version(b"dev-1.2".to_vec()),
        Response::StartTraces,
        Response::Trace(true, b"trace bytes".to_vec()),
        Response::Trace(false, vec![]),
        Response::EndTraces,
    ];
    for sample in samples {
        let encoded = write_answer(&sample).unwrap();
        let decoded = decode_response(&encoded).unwrap();
        match (&sample, &decoded) {
            (Response::Error, Response::Error) => {}
            (Response::Version(a), Response::Version(b)) => assert_eq!(a, b),
            (Response::StartTraces, Response::StartTraces) => {}
            (Response::Trace(fa, ta), Response::Trace(fb, tb)) => {
                assert_eq!(fa, fb);
                assert_eq!(ta, tb);
            }
            (Response::EndTraces, Response::EndTraces) => {}
            _ => panic!("variant changed across the wire"),
        }
    }
}

#[test]
fn rejects_empty_buffer() {
    assert_eq!(decode_response(&[]).unwrap_err(), DecodeError::Empty);
}

#[test]
fn rejects_unknown_discriminant() {
    assert_eq!(decode_response(&[5]).unwrap_err(), DecodeError::BadTag);
}

#[test]
fn rejects_bad_outcome_flag() {
    assert_eq!(decode_response(&[3, 2, 0, 0, 0, 0]).unwrap_err(), DecodeError::BadFlag);
}

#[test]
fn rejects_trailing_bytes() {
    assert_eq!(decode_response(&[0, 0]).unwrap_err(), DecodeError::TrailingBytes);
    assert_eq!(
        decode_response(&[1, 1, 0, 0, 0, b'x', b'y']).unwrap_err(),
        DecodeError::TrailingBytes
    );
}

#[test]
fn rejects_truncated_version_payload() {
    assert_eq!(decode_response(&[1, 9, 0, 0, 0, b'x']).unwrap_err(), DecodeError::BadPayload);
}
