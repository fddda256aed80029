use vstd::prelude::*;
use crate::bytes::extend_bytes;

verus! {

/// Control-stream framing: each message is a 4-byte big-endian length,
/// at most `MAX_FRAME_LEN`, followed by that many bytes of payload.
/// An overlong length field is fatal for the stream that carried it.
pub const MAX_FRAME_LEN: u32 = 256000;

pub open spec fn u32_be_seq(x: u32) -> Seq<u8> {
    seq![
        ((x >> 24) & 0xff) as u8,
        ((x >> 16) & 0xff) as u8,
        ((x >> 8) & 0xff) as u8,
        (x & 0xff) as u8,
    ]
}

pub open spec fn u32_of_4(b0: u8, b1: u8, b2: u8, b3: u8) -> u32 {
    ((b0 as u32) << 24) | ((b1 as u32) << 16) | ((b2 as u32) << 8) | (b3 as u32)
}

pub fn u32_be_bytes(x: u32) -> (r: Vec<u8>)
    ensures
        r@ == u32_be_seq(x),
{
    let mut out: Vec<u8> = Vec::new();
    out.push(((x >> 24) & 0xff) as u8);
    out.push(((x >> 16) & 0xff) as u8);
    out.push(((x >> 8) & 0xff) as u8);
    out.push((x & 0xff) as u8);
    proof {
        assert(out@ =~= u32_be_seq(x));
    }
    out
}

pub fn u32_from_4(b0: u8, b1: u8, b2: u8, b3: u8) -> (r: u32)
    ensures
        r == u32_of_4(b0, b1, b2, b3),
{
    ((b0 as u32) << 24) | ((b1 as u32) << 16) | ((b2 as u32) << 8) | (b3 as u32)
}

/// Reading the four length bytes back gives the length that was written.
pub proof fn lemma_u32_be_round_trip(x: u32)
    ensures
        u32_of_4(
            ((x >> 24) & 0xff) as u8,
            ((x >> 16) & 0xff) as u8,
            ((x >> 8) & 0xff) as u8,
            (x & 0xff) as u8,
        ) == x,
{
    let b0 = ((x >> 24) & 0xff) as u8;
    let b1 = ((x >> 16) & 0xff) as u8;
    let b2 = ((x >> 8) & 0xff) as u8;
    let b3 = (x & 0xff) as u8;
    assert(((b0 as u32) << 24) | ((b1 as u32) << 16) | ((b2 as u32) << 8) | (b3 as u32) == x)
        by (bit_vector)
        requires
            b0 == ((x >> 24) & 0xff) as u8,
            b1 == ((x >> 16) & 0xff) as u8,
            b2 == ((x >> 8) & 0xff) as u8,
            b3 == (x & 0xff) as u8,
    ;
}

/// A whole frame: the payload's length as four big-endian bytes, then the
/// payload itself.
pub open spec fn frame_seq(payload: Seq<u8>) -> Seq<u8> {
    u32_be_seq(payload.len() as u32) + payload
}

#[derive(Clone, Copy, PartialEq, Eq, Structural, Debug)]
pub enum FrameError {
    /// The length field exceeds `MAX_FRAME_LEN`: fatal for this stream.
    TooLong,
    /// Fewer bytes are available than the frame needs.
    Incomplete,
}

/// Frame a payload for the control stream. None when the payload exceeds
/// the frame limit and cannot be sent.
pub fn encode_frame(payload: &Vec<u8>) -> (r: Option<Vec<u8>>)
    ensures
        r is Some <==> payload@.len() <= MAX_FRAME_LEN,
        r is Some ==> r->Some_0@ == frame_seq(payload@),
{
    if payload.len() > 256000 {
        return None;
    }
    let mut out = u32_be_bytes(payload.len() as u32);
    extend_bytes(&mut out, payload);
    Some(out)
}

/// Whether a received length field is acceptable.
pub fn frame_len_ok(len: u32) -> (r: bool)
    ensures
        r == (len <= MAX_FRAME_LEN),
{
    len <= 256000
}

/// Decode one frame from the front of `buf`. Returns the payload and the
/// number of bytes consumed; an overlong length field is the fatal error,
/// a short buffer only means more bytes are needed.
pub fn decode_frame(buf: &Vec<u8>) -> (r: Result<(Vec<u8>, usize), FrameError>)
    ensures
        buf@.len() < 4 ==> r == Err::<(Vec<u8>, usize), FrameError>(FrameError::Incomplete),
        buf@.len() >= 4 ==> {
            let len = u32_of_4(buf@[0], buf@[1], buf@[2], buf@[3]);
            if len > MAX_FRAME_LEN {
                r == Err::<(Vec<u8>, usize), FrameError>(FrameError::TooLong)
            } else if buf@.len() < 4 + len {
                r == Err::<(Vec<u8>, usize), FrameError>(FrameError::Incomplete)
            } else {
                r is Ok && r->Ok_0.0@ == buf@.subrange(4, 4 + len as int) && r->Ok_0.1 == 4 + len
            }
        },
{
    if buf.len() < 4 {
        return Err(FrameError::Incomplete);
    }
    let len = u32_from_4(buf[0], buf[1], buf[2], buf[3]);
    if len > 256000 {
        return Err(FrameError::TooLong);
    }
    let need = 4 + len as usize;
    if buf.len() < need {
        return Err(FrameError::Incomplete);
    }
    let mut payload: Vec<u8> = Vec::new();
    let mut i: usize = 4;
    while i < need
        invariant
            4 <= i <= need <= buf@.len(),
            payload@ == buf@.subrange(4, i as int),
        decreases need - i,
    {
        payload.push(buf[i]);
        assert(payload@ =~= buf@.subrange(4, i + 1 as int));
        i += 1;
    }
    Ok((payload, need))
}

/// Round trip: a frame built from a payload decodes back to that payload
/// and consumes the whole frame.
pub proof fn lemma_frame_round_trip(payload: Seq<u8>)
    requires
        payload.len() <= MAX_FRAME_LEN,
    ensures
        ({
            let f = frame_seq(payload);
            &&& f.len() == 4 + payload.len()
            &&& u32_of_4(f[0], f[1], f[2], f[3]) == payload.len()
            &&& f.subrange(4, f.len() as int) == payload
        }),
{
    let x = payload.len() as u32;
    let f = frame_seq(payload);
    lemma_u32_be_round_trip(x);
    assert(f[0] == ((x >> 24) & 0xff) as u8);
    assert(f[1] == ((x >> 16) & 0xff) as u8);
    assert(f[2] == ((x >> 8) & 0xff) as u8);
    assert(f[3] == (x & 0xff) as u8);
    assert(f.subrange(4, f.len() as int) =~= payload);
}

} // verus!
