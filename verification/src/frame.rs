//! Length-prefixed framing: one message per frame — a u32 big-endian length,
//! then that many payload bytes. The byte-level format lives here as
//! functions on bytes; the stream halves are carried by `FrameReader` and
//! `FrameWriter`, bound to the message type they carry.
use std::marker::PhantomData;

use vstd::prelude::*;

use crate::error::Error;

verus! {

/// A frame's payload may not exceed this many bytes.
pub const MAX_FRAME: usize = 67108864;

/// The big-endian bytes of a 32-bit length.
pub open spec fn be32(n: nat) -> Seq<u8> {
    seq![
        ((n / 16777216) % 256) as u8,
        ((n / 65536) % 256) as u8,
        ((n / 256) % 256) as u8,
        (n % 256) as u8,
    ]
}

/// The value of four big-endian bytes.
pub open spec fn be32_value(b: Seq<u8>) -> nat {
    (b[0] as nat) * 16777216 + (b[1] as nat) * 65536 + (b[2] as nat) * 256 + (b[3] as nat)
}

/// The frame for a payload: its length (modulo 2^32, as a u32 prefix) in
/// big-endian order, then the payload.
pub open spec fn frame_spec(payload: Seq<u8>) -> Seq<u8> {
    be32((payload.len() % 4294967296) as nat) + payload
}

/// Frame a payload.
pub fn encode_frame(payload: &[u8]) -> (r: Vec<u8>)
    ensures
        r@ == frame_spec(payload@),
{
    let n: u64 = (payload.len() as u64) % 4294967296;
    let mut out: Vec<u8> = Vec::new();
    out.push(((n / 16777216) % 256) as u8);
    out.push(((n / 65536) % 256) as u8);
    out.push(((n / 256) % 256) as u8);
    out.push((n % 256) as u8);
    let mut i: usize = 0;
    while i < payload.len()
        invariant
            i <= payload.len(),
            out@ == be32(n as nat) + payload@.subrange(0, i as int),
        decreases payload.len() - i,
    {
        out.push(payload[i]);
        i = i + 1;
        assert(out@ =~= be32(n as nat) + payload@.subrange(0, i as int));
    }
    assert(payload@.subrange(0, payload.len() as int) =~= payload@);
    out
}

/// The payload length a frame header announces. Beyond [`MAX_FRAME`] the
/// frame is refused.
pub fn frame_len(header: &[u8]) -> (r: Result<usize, Error>)
    requires
        header@.len() == 4,
    ensures
        be32_value(header@) <= MAX_FRAME ==> r == Ok::<usize, Error>(be32_value(header@) as usize),
        be32_value(header@) > MAX_FRAME ==> r == Err::<usize, Error>(
            Error::FrameTooLarge(be32_value(header@) as usize),
        ),
{
    let len: u64 = (header[0] as u64) * 16777216 + (header[1] as u64) * 65536 + (header[2] as u64)
        * 256 + (header[3] as u64);
    if len > MAX_FRAME as u64 {
        return Err(Error::FrameTooLarge(len as usize));
    }
    Ok(len as usize)
}

/// What a buffer holds at its front: a frame that needs more bytes
/// (`Ok(None)`), a whole frame (`Ok(Some((payload, consumed)))`), or a
/// refused header.
pub open spec fn decode_spec(buf: Seq<u8>) -> Result<Option<(Seq<u8>, nat)>, Error> {
    if buf.len() < 4 {
        Ok(None)
    } else {
        let n = be32_value(buf.subrange(0, 4));
        if n > MAX_FRAME {
            Err(Error::FrameTooLarge(n as usize))
        } else if buf.len() < 4 + n {
            Ok(None)
        } else {
            Ok(Some((buf.subrange(4, 4 + n as int), (4 + n) as nat)))
        }
    }
}

/// Take one frame off the front of a buffer.
pub fn decode_frame(buf: &[u8]) -> (r: Result<Option<(Vec<u8>, usize)>, Error>)
    ensures
        match (r, decode_spec(buf@)) {
            (Ok(None), Ok(None)) => true,
            (Ok(Some((p, c))), Ok(Some((sp, sc)))) => p@ == sp && c as nat == sc,
            (Err(e), Err(se)) => e == se,
            _ => false,
        },
{
    if buf.len() < 4 {
        return Ok(None);
    }
    let header = slice_prefix4(buf);
    let n = match frame_len(&header) {
        Ok(n) => n,
        Err(e) => return Err(e),
    };
    if buf.len() - 4 < n {
        return Ok(None);
    }
    let end: usize = 4 + n;
    let mut p: Vec<u8> = Vec::new();
    let mut k: usize = 4;
    while k < end
        invariant
            end == 4 + n,
            end <= buf@.len(),
            4 <= k <= end,
            p@ == buf@.subrange(4, k as int),
        decreases end - k,
    {
        p.push(buf[k]);
        k = k + 1;
        assert(p@ =~= buf@.subrange(4, k as int));
    }
    Ok(Some((p, end)))
}

fn slice_prefix4(buf: &[u8]) -> (r: Vec<u8>)
    requires
        buf@.len() >= 4,
    ensures
        r@ == buf@.subrange(0, 4),
{
    let mut v: Vec<u8> = Vec::new();
    v.push(buf[0]);
    v.push(buf[1]);
    v.push(buf[2]);
    v.push(buf[3]);
    assert(v@ =~= buf@.subrange(0, 4));
    v
}

/// Law (round trip): a framed payload within the size limit decodes back
/// to itself, consuming exactly its frame, whatever follows it.
pub proof fn law_frame_round_trip(payload: Seq<u8>, rest: Seq<u8>)
    requires
        payload.len() <= MAX_FRAME,
    ensures
        decode_spec(frame_spec(payload) + rest) == Ok::<Option<(Seq<u8>, nat)>, Error>(
            Some((payload, (4 + payload.len()) as nat)),
        ),
{
    let n = payload.len();
    assert(n % 4294967296 == n);
    let buf = frame_spec(payload) + rest;
    assert(buf.subrange(0, 4) =~= be32(n));
    assert(buf.subrange(4, 4 + n as int) =~= payload);
    assert(be32_value(be32(n)) == n) by (nonlinear_arith)
        requires
            n <= MAX_FRAME,
            be32(n)[0] == ((n / 16777216) % 256) as u8,
            be32(n)[1] == ((n / 65536) % 256) as u8,
            be32(n)[2] == ((n / 256) % 256) as u8,
            be32(n)[3] == (n % 256) as u8,
    ;
}

/// Law: a buffer holding only part of a frame asks for more bytes — never a
/// message, never an error — while the header is within the limit.
pub proof fn law_partial_frame_waits(payload: Seq<u8>, k: int)
    requires
        payload.len() <= MAX_FRAME,
        0 <= k < frame_spec(payload).len(),
    ensures
        decode_spec(frame_spec(payload).subrange(0, k)) == Ok::<Option<(Seq<u8>, nat)>, Error>(
            None,
        ),
{
    let n = payload.len();
    assert(n % 4294967296 == n);
    let buf = frame_spec(payload).subrange(0, k);
    if k >= 4 {
        assert(buf.subrange(0, 4) =~= be32(n));
        assert(be32_value(be32(n)) == n) by (nonlinear_arith)
            requires
                n <= MAX_FRAME,
                be32(n)[0] == ((n / 16777216) % 256) as u8,
                be32(n)[1] == ((n / 65536) % 256) as u8,
                be32(n)[2] == ((n / 256) % 256) as u8,
                be32(n)[3] == (n % 256) as u8,
        ;
    }
}

/// One direction of the wire: a stream that length-prefixed frames are read
/// from, decoded as `M`.
pub struct FrameReader<R, M> {
    stream: R,
    msg: PhantomData<M>,
}

impl<R, M> FrameReader<R, M> {
    /// The stream this reader owns.
    pub closed spec fn stream_spec(&self) -> R {
        self.stream
    }

    pub fn new(stream: R) -> (r: Self)
        ensures
            r.stream_spec() == stream,
    {
        FrameReader { stream, msg: PhantomData }
    }

    /// The underlying stream (the transport reads and writes through it).
    pub fn stream_mut(&mut self) -> (r: &mut R)
        ensures
            *r == old(self).stream_spec(),
            final(self).stream_spec() == *final(r),
    {
        &mut self.stream
    }

    /// Recover the underlying stream.
    pub fn into_inner(self) -> (r: R)
        ensures
            r == self.stream_spec(),
    {
        self.stream
    }
}

/// The other direction of the wire: a stream that `M`s are encoded to as
/// length-prefixed frames.
pub struct FrameWriter<W, M> {
    stream: W,
    msg: PhantomData<M>,
}

impl<W, M> FrameWriter<W, M> {
    /// The stream this writer owns.
    pub closed spec fn stream_spec(&self) -> W {
        self.stream
    }

    pub fn new(stream: W) -> (r: Self)
        ensures
            r.stream_spec() == stream,
    {
        FrameWriter { stream, msg: PhantomData }
    }

    /// The underlying stream.
    pub fn stream_mut(&mut self) -> (r: &mut W)
        ensures
            *r == old(self).stream_spec(),
            final(self).stream_spec() == *final(r),
    {
        &mut self.stream
    }

    /// Recover the underlying stream.
    pub fn into_inner(self) -> (r: W)
        ensures
            r == self.stream_spec(),
    {
        self.stream
    }
}

} // verus!
