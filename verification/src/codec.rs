//! Message framing: every message on the wire is a 4-byte little-endian
//! signed length prefix followed by that many payload bytes. A negative
//! declared length is a fatal protocol error; a payload longer than the
//! signed 32-bit range cannot be framed.

use vstd::prelude::*;

verus! {

/// Largest payload length the 4-byte signed prefix can carry.
pub const MAX_PAYLOAD_LEN: usize = 0x7fff_ffff;

/// Why framing or unframing a message failed.
#[derive(Debug, PartialEq, Eq, Structural)]
pub enum FrameError {
    /// The 4-byte prefix, read as a signed integer, was negative.
    NegativeLength,
    /// The payload is longer than the signed 32-bit range allows.
    PayloadTooLong,
    /// The data ended before the prefix or the declared payload was complete.
    Truncated,
}

/// The 4 little-endian bytes of a 32-bit value.
pub open spec fn le_bytes_of(n: u32) -> Seq<u8> {
    seq![
        (n & 0xff) as u8,
        ((n >> 8) & 0xff) as u8,
        ((n >> 16) & 0xff) as u8,
        ((n >> 24) & 0xff) as u8,
    ]
}

/// The 32-bit value stored in 4 little-endian bytes.
pub open spec fn le_value_of(b: Seq<u8>) -> u32 {
    (b[0] as u32) | ((b[1] as u32) << 8) | ((b[2] as u32) << 16) | ((b[3] as u32) << 24)
}

/// A framed message: little-endian length prefix, then the payload.
pub open spec fn frame_spec(payload: Seq<u8>) -> Seq<u8> {
    le_bytes_of(payload.len() as u32) + payload
}

/// Reading back the 4 little-endian bytes of `n` yields `n`.
pub proof fn lemma_le_round_trip(n: u32)
    ensures
        le_value_of(le_bytes_of(n)) == n,
{
    assert((((n & 0xff) as u8) as u32) | (((((n >> 8) & 0xff) as u8) as u32) << 8)
        | (((((n >> 16) & 0xff) as u8) as u32) << 16)
        | (((((n >> 24) & 0xff) as u8) as u32) << 24) == n) by (bit_vector);
}

/// The stored value is in the signed 32-bit range exactly when the high bit
/// of the last byte is clear.
pub proof fn lemma_le_sign(b0: u8, b1: u8, b2: u8, b3: u8)
    ensures
        le_value_of(seq![b0, b1, b2, b3]) <= 0x7fff_ffff <==> b3 < 0x80,
{
    assert(((b0 as u32) | ((b1 as u32) << 8) | ((b2 as u32) << 16) | ((b3 as u32) << 24))
        <= 0x7fff_ffff <==> b3 < 0x80) by (bit_vector);
}

/// Frame a payload for the wire: its length as a 4-byte little-endian
/// prefix, then the payload itself. Rejects payloads whose length does not
/// fit the signed 32-bit prefix.
pub fn write_message(payload: &[u8]) -> (r: Result<Vec<u8>, FrameError>)
    ensures
        payload@.len() <= MAX_PAYLOAD_LEN ==> (r matches Ok(v) && v@ == frame_spec(payload@)),
        payload@.len() > MAX_PAYLOAD_LEN ==> r == Err::<Vec<u8>, FrameError>(
            FrameError::PayloadTooLong,
        ),
{
    if payload.len() > MAX_PAYLOAD_LEN {
        return Err(FrameError::PayloadTooLong);
    }
    let n = payload.len() as u32;
    let mut out: Vec<u8> = Vec::new();
    out.push((n & 0xff) as u8);
    out.push(((n >> 8) & 0xff) as u8);
    out.push(((n >> 16) & 0xff) as u8);
    out.push(((n >> 24) & 0xff) as u8);
    out.extend_from_slice(payload);
    proof {
        assert(out@ =~= frame_spec(payload@));
    }
    Ok(out)
}

/// Read a 4-byte little-endian prefix as a length. A prefix with the sign
/// bit set denotes a negative length and is rejected.
pub fn decode_length(prefix: &[u8]) -> (r: Result<usize, FrameError>)
    requires
        prefix@.len() == 4,
    ensures
        prefix@[3] < 0x80 ==> (r matches Ok(n) && n == le_value_of(prefix@)
            && n <= MAX_PAYLOAD_LEN),
        prefix@[3] >= 0x80 ==> r == Err::<usize, FrameError>(FrameError::NegativeLength),
{
    let b0 = prefix[0];
    let b1 = prefix[1];
    let b2 = prefix[2];
    let b3 = prefix[3];
    if b3 >= 0x80 {
        return Err(FrameError::NegativeLength);
    }
    let n: u32 = (b0 as u32) | ((b1 as u32) << 8) | ((b2 as u32) << 16) | ((b3 as u32) << 24);
    proof {
        assert(prefix@ =~= seq![b0, b1, b2, b3]);
        lemma_le_sign(b0, b1, b2, b3);
    }
    Ok(n as usize)
}

/// What unframing one message from the front of a byte buffer yields.
pub open spec fn read_message_spec(data: Seq<u8>) -> Result<Seq<u8>, FrameError> {
    if data.len() < 4 {
        Err(FrameError::Truncated)
    } else if data[3] >= 0x80 {
        Err(FrameError::NegativeLength)
    } else if data.len() < 4 + le_value_of(data.subrange(0, 4)) {
        Err(FrameError::Truncated)
    } else {
        Ok(data.subrange(4, 4 + le_value_of(data.subrange(0, 4))))
    }
}

/// Unframe one message from the front of `data`: decode the 4-byte
/// little-endian length, then take exactly that many payload bytes.
/// Also returns how many bytes of `data` the message occupied.
pub fn read_message(data: &[u8]) -> (r: Result<(Vec<u8>, usize), FrameError>)
    ensures
        (match (r, read_message_spec(data@)) {
            (Ok(p), Ok(ps)) => p.0@ == ps && p.1 == 4 + ps.len(),
            (Err(e1), Err(e2)) => e1 == e2,
            _ => false,
        }),
{
    if data.len() < 4 {
        return Err(FrameError::Truncated);
    }
    let prefix = &data[0..4];
    let n = match decode_length(prefix) {
        Ok(n) => n,
        Err(e) => {
            return Err(e);
        },
    };
    if data.len() - 4 < n {
        return Err(FrameError::Truncated);
    }
    let mut payload: Vec<u8> = Vec::new();
    let mut i: usize = 0;
    while i < n
        invariant
            i <= n,
            n <= data@.len() - 4,
            data@.len() <= usize::MAX,
            payload@ == data@.subrange(4, 4 + i as int),
        decreases n - i,
    {
        payload.push(data[4 + i]);
        proof {
            assert(payload@ =~= data@.subrange(4, 4 + (i + 1)));
        }
        i = i + 1;
    }
    proof {
        assert(data@.subrange(0, 4)[3] == data@[3]);
    }
    Ok((payload, 4 + n))
}

/// A message whose 4-byte prefix declares a negative length is rejected
/// as a fatal decode error before any payload read is attempted.
pub proof fn lemma_negative_length_rejected(data: Seq<u8>)
    requires
        data.len() >= 4,
        data[3] >= 0x80,
    ensures
        read_message_spec(data) == Err::<Seq<u8>, FrameError>(FrameError::NegativeLength),
{
}

/// Framing round trip: unframing a framed payload, with anything at all
/// after it in the buffer, recovers exactly that payload.
pub proof fn lemma_frame_round_trip(payload: Seq<u8>, rest: Seq<u8>)
    requires
        payload.len() <= MAX_PAYLOAD_LEN,
    ensures
        read_message_spec(frame_spec(payload) + rest) == Ok::<Seq<u8>, FrameError>(payload),
{
    let data = frame_spec(payload) + rest;
    let n = payload.len() as u32;
    lemma_le_round_trip(n);
    assert(data.subrange(0, 4) =~= le_bytes_of(n));
    assert(le_value_of(data.subrange(0, 4)) == n);
    assert(n <= 0x7fff_ffff <==> data[3] < 0x80) by {
        lemma_le_sign(le_bytes_of(n)[0], le_bytes_of(n)[1], le_bytes_of(n)[2], le_bytes_of(n)[3]);
        assert(le_bytes_of(n) =~= data.subrange(0, 4));
    }
    assert(data.subrange(4, 4 + n) =~= payload);
}

} // verus!
