//! The closed set of response variants and their wire encoding: a one-byte
//! discriminant, then a variant-specific payload. The byte values and field
//! order are a wire contract with the peer and are fixed.

use vstd::prelude::*;
use crate::codec::{frame_spec, read_message_spec, FrameError, MAX_PAYLOAD_LEN};
use crate::codec::{read_message, write_message};

verus! {

/// A response to the peer.
#[derive(Debug)]
pub enum Response {
    /// A fatal failure; carries no payload on the wire.
    Error,
    /// The worker's version string.
    Version(Vec<u8>),
    /// Opens a trace stream.
    StartTraces,
    /// One explored path: whether it reached an assertion failure, and its
    /// serialized events in chronological order.
    Trace(bool, Vec<u8>),
    /// Closes a trace stream.
    EndTraces,
}

/// The mathematical shape of a response: payloads as byte sequences.
pub enum ResponseView {
    Error,
    Version(Seq<u8>),
    StartTraces,
    Trace(bool, Seq<u8>),
    EndTraces,
}

impl View for Response {
    type V = ResponseView;

    open spec fn view(&self) -> ResponseView {
        match self {
            Response::Error => ResponseView::Error,
            Response::Version(v) => ResponseView::Version(v@),
            Response::StartTraces => ResponseView::StartTraces,
            Response::Trace(b, t) => ResponseView::Trace(*b, t@),
            Response::EndTraces => ResponseView::EndTraces,
        }
    }
}

/// The views of a sequence of responses.
pub open spec fn response_views(rs: Seq<Response>) -> Seq<ResponseView> {
    rs.map_values(|r: Response| r@)
}

/// Whether a response's payload fits the framing's signed 32-bit length.
pub open spec fn response_fits(r: ResponseView) -> bool {
    match r {
        ResponseView::Version(v) => v.len() <= MAX_PAYLOAD_LEN,
        ResponseView::Trace(_, t) => t.len() <= MAX_PAYLOAD_LEN,
        _ => true,
    }
}

/// The exact bytes of a response on the wire: discriminant byte 0 for
/// `Error`, 1 for `Version`, 2 for `StartTraces`, 3 for `Trace`, 4 for
/// `EndTraces`; `Version` carries a framed version string; `Trace` carries
/// a 0/1 outcome flag and then the framed event bytes.
pub open spec fn encode_response_spec(r: ResponseView) -> Seq<u8> {
    match r {
        ResponseView::Error => seq![0u8],
        ResponseView::Version(v) => seq![1u8] + frame_spec(v),
        ResponseView::StartTraces => seq![2u8],
        ResponseView::Trace(b, t) => seq![3u8, (if b { 1u8 } else { 0u8 })] + frame_spec(t),
        ResponseView::EndTraces => seq![4u8],
    }
}

/// Encode a response for the wire, byte-exact per `encode_response_spec`.
pub fn write_answer(r: &Response) -> (out: Result<Vec<u8>, FrameError>)
    ensures
        response_fits(r@) ==> (out matches Ok(v) && v@ == encode_response_spec(r@)),
        !response_fits(r@) ==> out == Err::<Vec<u8>, FrameError>(FrameError::PayloadTooLong),
{
    match r {
        Response::Error => {
            let mut out: Vec<u8> = Vec::new();
            out.push(0);
            proof {
                assert(out@ =~= encode_response_spec(r@));
            }
            Ok(out)
        },
        Response::Version(v) => {
            let framed = write_message(v.as_slice())?;
            let mut out: Vec<u8> = Vec::new();
            out.push(1);
            out.extend_from_slice(framed.as_slice());
            proof {
                assert(out@ =~= encode_response_spec(r@));
            }
            Ok(out)
        },
        Response::StartTraces => {
            let mut out: Vec<u8> = Vec::new();
            out.push(2);
            proof {
                assert(out@ =~= encode_response_spec(r@));
            }
            Ok(out)
        },
        Response::Trace(b, t) => {
            let framed = write_message(t.as_slice())?;
            let mut out: Vec<u8> = Vec::new();
            out.push(3);
            out.push(if *b { 1 } else { 0 });
            out.extend_from_slice(framed.as_slice());
            proof {
                assert(out@ =~= encode_response_spec(r@));
            }
            Ok(out)
        },
        Response::EndTraces => {
            let mut out: Vec<u8> = Vec::new();
            out.push(4);
            proof {
                assert(out@ =~= encode_response_spec(r@));
            }
            Ok(out)
        },
    }
}

/// Why decoding a response failed.
#[derive(Debug, PartialEq, Eq, Structural)]
pub enum DecodeError {
    /// No discriminant byte.
    Empty,
    /// A discriminant outside 0..=4.
    BadTag,
    /// A `Trace` outcome flag other than 0 or 1.
    BadFlag,
    /// A framed payload that could not be unframed.
    BadPayload,
    /// Bytes left over after a complete response.
    TrailingBytes,
}

/// What decoding a full buffer as one response yields.
pub open spec fn decode_response_spec(data: Seq<u8>) -> Result<ResponseView, DecodeError> {
    if data.len() == 0 {
        Err(DecodeError::Empty)
    } else if data[0] == 0 {
        if data.len() == 1 {
            Ok(ResponseView::Error)
        } else {
            Err(DecodeError::TrailingBytes)
        }
    } else if data[0] == 2 {
        if data.len() == 1 {
            Ok(ResponseView::StartTraces)
        } else {
            Err(DecodeError::TrailingBytes)
        }
    } else if data[0] == 4 {
        if data.len() == 1 {
            Ok(ResponseView::EndTraces)
        } else {
            Err(DecodeError::TrailingBytes)
        }
    } else if data[0] == 1 {
        match read_message_spec(data.skip(1)) {
            Err(_) => Err(DecodeError::BadPayload),
            Ok(v) => if data.len() == 5 + v.len() {
                Ok(ResponseView::Version(v))
            } else {
                Err(DecodeError::TrailingBytes)
            },
        }
    } else if data[0] == 3 {
        if data.len() < 2 {
            Err(DecodeError::BadPayload)
        } else if data[1] != 0 && data[1] != 1 {
            Err(DecodeError::BadFlag)
        } else {
            match read_message_spec(data.skip(2)) {
                Err(_) => Err(DecodeError::BadPayload),
                Ok(t) => if data.len() == 6 + t.len() {
                    Ok(ResponseView::Trace(data[1] == 1, t))
                } else {
                    Err(DecodeError::TrailingBytes)
                },
            }
        }
    } else {
        Err(DecodeError::BadTag)
    }
}

/// Decode a whole buffer as exactly one response.
pub fn decode_response(data: &[u8]) -> (r: Result<Response, DecodeError>)
    ensures
        (match (r, decode_response_spec(data@)) {
            (Ok(resp), Ok(v)) => resp@ == v,
            (Err(e1), Err(e2)) => e1 == e2,
            _ => false,
        }),
{
    if data.len() == 0 {
        return Err(DecodeError::Empty);
    }
    let tag = data[0];
    if tag == 0 || tag == 2 || tag == 4 {
        if data.len() != 1 {
            return Err(DecodeError::TrailingBytes);
        }
        if tag == 0 {
            Ok(Response::Error)
        } else if tag == 2 {
            Ok(Response::StartTraces)
        } else {
            Ok(Response::EndTraces)
        }
    } else if tag == 1 {
        let body = &data[1..data.len()];
        proof {
            assert(body@ =~= data@.skip(1));
        }
        match read_message(body) {
            Err(_) => Err(DecodeError::BadPayload),
            Ok((v, used)) => {
                if body.len() != used {
                    Err(DecodeError::TrailingBytes)
                } else {
                    Ok(Response::Version(v))
                }
            },
        }
    } else if tag == 3 {
        if data.len() < 2 {
            return Err(DecodeError::BadPayload);
        }
        let flag = data[1];
        if flag != 0 && flag != 1 {
            return Err(DecodeError::BadFlag);
        }
        let body = &data[2..data.len()];
        proof {
            assert(body@ =~= data@.skip(2));
        }
        match read_message(body) {
            Err(_) => Err(DecodeError::BadPayload),
            Ok((t, used)) => {
                if body.len() != used {
                    Err(DecodeError::TrailingBytes)
                } else {
                    Ok(Response::Trace(flag == 1, t))
                }
            },
        }
    } else {
        Err(DecodeError::BadTag)
    }
}

/// Encoding round trip: decoding an encoded response recovers the
/// discriminant and every payload field byte-exact.
pub proof fn lemma_response_round_trip(r: ResponseView)
    requires
        response_fits(r),
    ensures
        decode_response_spec(encode_response_spec(r)) == Ok::<ResponseView, DecodeError>(r),
{
    let data = encode_response_spec(r);
    match r {
        ResponseView::Version(v) => {
            assert(data.skip(1) =~= frame_spec(v) + Seq::<u8>::empty());
            crate::codec::lemma_frame_round_trip(v, Seq::<u8>::empty());
        },
        ResponseView::Trace(b, t) => {
            assert(data.skip(2) =~= frame_spec(t) + Seq::<u8>::empty());
            crate::codec::lemma_frame_round_trip(t, Seq::<u8>::empty());
            assert(data[1] == (if b { 1u8 } else { 0u8 }));
        },
        _ => {},
    }
}

} // verus!
