use vstd::prelude::*;

verus! {

/// Number of bytes in the little-endian length header of a frame.
pub const HEADER_LEN: usize = 8;

/// Why a buffer does not hold a whole frame.
#[derive(Debug, Clone, Copy, PartialEq, Eq)]
pub enum FrameError {
    /// The stream ended cleanly before any byte of the header.
    PeerClosed,
    /// The stream ended inside the header or inside the payload.
    Truncated,
}

/// Byte `k` (0 = least significant) of `n`.
pub open spec fn byte_of(n: u64, k: u64) -> u8 {
    ((n >> (8 * k)) & 0xff) as u8
}

/// The eight little-endian bytes of `n`.
pub open spec fn header_of(n: u64) -> Seq<u8> {
    seq![
        byte_of(n, 0), byte_of(n, 1), byte_of(n, 2), byte_of(n, 3),
        byte_of(n, 4), byte_of(n, 5), byte_of(n, 6), byte_of(n, 7),
    ]
}

/// The integer that eight little-endian bytes stand for.
pub open spec fn header_value(h: Seq<u8>) -> u64
    recommends
        h.len() >= 8,
{
    (h[0] as u64) | ((h[1] as u64) << 8) | ((h[2] as u64) << 16) | ((h[3] as u64) << 24)
        | ((h[4] as u64) << 32) | ((h[5] as u64) << 40) | ((h[6] as u64) << 48) | ((h[7]
        as u64) << 56)
}

/// The frame that carries `payload`: its length as a little-endian `u64`, then the bytes.
pub open spec fn frame_of(payload: Seq<u8>) -> Seq<u8> {
    header_of(payload.len() as u64) + payload
}

/// What reading one frame from the front of `buf` yields: the payload and the
/// number of bytes consumed, or why no whole frame is there.
pub open spec fn decode_spec(buf: Seq<u8>) -> Result<(Seq<u8>, nat), FrameError> {
    if buf.len() == 0 {
        Err(FrameError::PeerClosed)
    } else if buf.len() < 8 {
        Err(FrameError::Truncated)
    } else {
        let n = header_value(buf) as nat;
        if buf.len() < 8 + n {
            Err(FrameError::Truncated)
        } else {
            Ok((buf.subrange(8, 8 + n as int), 8 + n))
        }
    }
}

proof fn lemma_header_round_trip(n: u64)
    ensures
        header_value(header_of(n)) == n,
{
    let b0 = byte_of(n, 0);
    let b1 = byte_of(n, 1);
    let b2 = byte_of(n, 2);
    let b3 = byte_of(n, 3);
    let b4 = byte_of(n, 4);
    let b5 = byte_of(n, 5);
    let b6 = byte_of(n, 6);
    let b7 = byte_of(n, 7);
    assert(b0 as u64 == n & 0xff) by (bit_vector)
        requires b0 == ((n >> (8 * 0u64)) & 0xff) as u8;
    assert(b1 as u64 == (n >> 8) & 0xff) by (bit_vector)
        requires b1 == ((n >> (8 * 1u64)) & 0xff) as u8;
    assert(b2 as u64 == (n >> 16) & 0xff) by (bit_vector)
        requires b2 == ((n >> (8 * 2u64)) & 0xff) as u8;
    assert(b3 as u64 == (n >> 24) & 0xff) by (bit_vector)
        requires b3 == ((n >> (8 * 3u64)) & 0xff) as u8;
    assert(b4 as u64 == (n >> 32) & 0xff) by (bit_vector)
        requires b4 == ((n >> (8 * 4u64)) & 0xff) as u8;
    assert(b5 as u64 == (n >> 40) & 0xff) by (bit_vector)
        requires b5 == ((n >> (8 * 5u64)) & 0xff) as u8;
    assert(b6 as u64 == (n >> 48) & 0xff) by (bit_vector)
        requires b6 == ((n >> (8 * 6u64)) & 0xff) as u8;
    assert(b7 as u64 == (n >> 56) & 0xff) by (bit_vector)
        requires b7 == ((n >> (8 * 7u64)) & 0xff) as u8;
    assert((n & 0xff) | (((n >> 8) & 0xff) << 8) | (((n >> 16) & 0xff) << 16) | (((n >> 24)
        & 0xff) << 24) | (((n >> 32) & 0xff) << 32) | (((n >> 40) & 0xff) << 40) | (((n >> 48)
        & 0xff) << 48) | (((n >> 56) & 0xff) << 56) == n) by (bit_vector);
}

/// Reading a frame back from the bytes that `frame_of` wrote, whatever follows
/// them, gives the payload exactly and consumes its length plus the header.
pub proof fn lemma_frame_round_trip(payload: Seq<u8>, rest: Seq<u8>)
    requires
        payload.len() <= u64::MAX,
    ensures
        decode_spec(frame_of(payload) + rest) == Ok::<(Seq<u8>, nat), FrameError>(
            (payload, 8 + payload.len()),
        ),
{
    let n = payload.len() as u64;
    lemma_header_round_trip(n);
    let buf = frame_of(payload) + rest;
    assert(buf.subrange(0, 8) =~= header_of(n));
    assert(header_value(buf) == header_value(header_of(n)));
    assert(buf.subrange(8, 8 + payload.len() as int) =~= payload);
}

/// Writes the header of a frame whose payload is `len` bytes long.
pub fn encode_header(len: u64) -> (r: Vec<u8>)
    ensures
        r@ == header_of(len),
{
    let mut r: Vec<u8> = Vec::with_capacity(HEADER_LEN);
    let mut k: u64 = 0;
    while k < 8
        invariant
            k <= 8,
            r@ =~= header_of(len).subrange(0, k as int),
        decreases 8 - k,
    {
        let b: u8 = ((len >> (8 * k)) & 0xff) as u8;
        r.push(b);
        k = k + 1;
    }
    r
}

/// Frames `payload`: the length header, then the bytes.
pub fn encode_frame(payload: &[u8]) -> (r: Vec<u8>)
    ensures
        r@ == frame_of(payload@),
{
    let mut r = encode_header(payload.len() as u64);
    let mut i: usize = 0;
    while i < payload.len()
        invariant
            i <= payload@.len(),
            r@ =~= header_of(payload@.len() as u64) + payload@.subrange(0, i as int),
        decreases payload@.len() - i,
    {
        r.push(payload[i]);
        i = i + 1;
    }
    assert(payload@.subrange(0, payload@.len() as int) =~= payload@);
    r
}

/// The payload length that a frame header announces.
pub fn header_body_len(header: &[u8]) -> (r: u64)
    requires
        header@.len() == HEADER_LEN,
    ensures
        r == header_value(header@),
{
    (header[0] as u64) | ((header[1] as u64) << 8) | ((header[2] as u64) << 16) | ((
    header[3] as u64) << 24) | ((header[4] as u64) << 32) | ((header[5] as u64) << 40) | ((
    header[6] as u64) << 48) | ((header[7] as u64) << 56)
}

/// What it means that the stream ended after `read` bytes of the next frame:
/// a clean close between frames, or a frame cut short.
pub fn end_of_stream(read: usize) -> (r: FrameError)
    ensures
        r == (if read == 0 {
            FrameError::PeerClosed
        } else {
            FrameError::Truncated
        }),
{
    if read == 0 {
        FrameError::PeerClosed
    } else {
        FrameError::Truncated
    }
}

/// Reads one frame from the front of `buf`: its payload and how many bytes it took.
pub fn decode_frame(buf: &[u8]) -> (r: Result<(Vec<u8>, usize), FrameError>)
    ensures
        match r {
            Ok((payload, used)) => decode_spec(buf@) == Ok::<(Seq<u8>, nat), FrameError>(
                (payload@, used as nat),
            ),
            Err(e) => decode_spec(buf@) == Err::<(Seq<u8>, nat), FrameError>(e),
        },
{
    if buf.len() == 0 {
        return Err(FrameError::PeerClosed);
    }
    if buf.len() < HEADER_LEN {
        return Err(FrameError::Truncated);
    }
    let n = header_body_len(&buf[0..8]);
    assert(buf@.subrange(0, 8)[0] == buf@[0]);
    let avail: usize = buf.len() - HEADER_LEN;
    if (avail as u64) < n {
        return Err(FrameError::Truncated);
    }
    let end: usize = HEADER_LEN + n as usize;
    let mut payload: Vec<u8> = Vec::new();
    let mut i: usize = HEADER_LEN;
    while i < end
        invariant
            HEADER_LEN <= i <= end,
            end <= buf@.len(),
            payload@ =~= buf@.subrange(8, i as int),
        decreases end - i,
    {
        payload.push(buf[i]);
        i = i + 1;
    }
    Ok((payload, end))
}

} // verus!
