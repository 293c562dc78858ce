//! Framing of network packets.
//!
//! A packet is `[hdr_size(4)][hdr][body]`; on the network it is preceded by
//! its total size: `[total_size(4)][hdr_size(4)][hdr][body]`, where
//! `total_size` counts everything after the total-size field. Sizes are
//! little-endian `u32`.
use vstd::bytes::{spec_u32_from_le_bytes, spec_u32_to_le_bytes, u32_from_le_bytes, u32_to_le_bytes};
use vstd::prelude::*;

verus! {

/// Size of a length field.
pub const LEN_SIZE: usize = 4;

/// The little-endian `u32` at `off..off + 4` of `s`.
pub open spec fn le_u32_at(s: Seq<u8>, off: int) -> u32 {
    spec_u32_from_le_bytes(s.subrange(off, off + 4))
}

/// A packet `[hdr_size(4)][hdr][body]`.
pub open spec fn packet_bytes(hdr: Seq<u8>, body: Seq<u8>) -> Seq<u8> {
    spec_u32_to_le_bytes(hdr.len() as u32) + hdr + body
}

/// A packet preceded by its total size.
pub open spec fn frame_bytes(hdr: Seq<u8>, body: Seq<u8>) -> Seq<u8> {
    spec_u32_to_le_bytes((LEN_SIZE + hdr.len() + body.len()) as u32) + packet_bytes(hdr, body)
}

/// What the decoder found at the start of its input.
#[derive(PartialEq, Eq, Structural)]
pub enum FrameStep {
    /// The input holds no whole frame yet; `reserve` more bytes are wanted.
    NeedMore { reserve: usize },
    /// The frame cannot hold its header: it is shorter than the header-size
    /// field, or the header would run past the frame's end. Both are
    /// refused here, before any byte of the header is read.
    Invalid { size: usize, hdr_size: usize },
    /// A whole frame of `4 + size` bytes, whose header is `hdr_size` bytes
    /// long.
    Frame { size: usize, hdr_size: usize },
}

/// The decoder's verdict on `s`.
pub open spec fn spec_decode_frame(s: Seq<u8>) -> FrameStep {
    if s.len() < LEN_SIZE {
        FrameStep::NeedMore { reserve: (LEN_SIZE * 2) as usize }
    } else {
        let size = le_u32_at(s, 0) as usize;
        if s.len() - LEN_SIZE < size {
            FrameStep::NeedMore { reserve: size }
        } else if size < LEN_SIZE {
            FrameStep::Invalid { size, hdr_size: 0 }
        } else {
            let hdr_size = le_u32_at(s, LEN_SIZE as int) as usize;
            if hdr_size > size - LEN_SIZE {
                FrameStep::Invalid { size, hdr_size }
            } else {
                FrameStep::Frame { size, hdr_size }
            }
        }
    }
}

/// Decoder of network packets.
#[derive(Clone, Copy)]
pub struct NetPacketDecoder {}

impl NetPacketDecoder {
    pub fn new() -> (r: Self) {
        NetPacketDecoder {  }
    }

    /// Look for a whole frame at the start of `src`.
    ///
    /// For a `Frame`, the header is `src[8..8 + hdr_size]`, the body
    /// `src[8 + hdr_size..4 + size]`, and `4 + size` bytes are consumed.
    /// A header size is checked against the bytes that follow the
    /// header-size field (`size - 4`), so that header and body always lie
    /// inside the frame; a frame of fewer than 4 bytes is refused as well.
    pub fn decode_frame(&self, src: &[u8]) -> (r: FrameStep)
        ensures
            r == spec_decode_frame(src@),
            r matches FrameStep::Frame { size, hdr_size } ==> LEN_SIZE + size <= src@.len()
                && LEN_SIZE + hdr_size <= size,
    {
        if src.len() < LEN_SIZE {
            return FrameStep::NeedMore { reserve: LEN_SIZE * 2 };
        }
        let size = u32_from_le_bytes(&src[0..LEN_SIZE]) as usize;
        if src.len() - LEN_SIZE < size {
            return FrameStep::NeedMore { reserve: size };
        }
        if size < LEN_SIZE {
            return FrameStep::Invalid { size, hdr_size: 0 };
        }
        let hdr_size = u32_from_le_bytes(&src[LEN_SIZE..LEN_SIZE * 2]) as usize;
        if hdr_size > size - LEN_SIZE {
            return FrameStep::Invalid { size, hdr_size };
        }
        FrameStep::Frame { size, hdr_size }
    }
}

/// Why a packet could not be split into header and body.
#[derive(PartialEq, Eq, Structural)]
pub enum PacketError {
    /// Fewer than 4 bytes: no room for the header-size prefix.
    NoPrefix { remaining: usize },
    /// The header size exceeds the bytes after the prefix.
    InvalidHeaderSize { hdr_size: usize, remaining: usize },
}

/// Split a packet `[hdr_size(4)][hdr][body]` into its header bytes and body.
pub fn decode_packet(src: &[u8]) -> (r: Result<(&[u8], &[u8]), PacketError>)
    ensures
        src@.len() < LEN_SIZE ==> r == Err::<(&[u8], &[u8]), PacketError>(
            PacketError::NoPrefix { remaining: src@.len() as usize },
        ),
        src@.len() >= LEN_SIZE && le_u32_at(src@, 0) > src@.len() - LEN_SIZE ==> r == Err::<
            (&[u8], &[u8]),
            PacketError,
        >(
            PacketError::InvalidHeaderSize {
                hdr_size: le_u32_at(src@, 0) as usize,
                remaining: (src@.len() - LEN_SIZE) as usize,
            },
        ),
        src@.len() >= LEN_SIZE && le_u32_at(src@, 0) <= src@.len() - LEN_SIZE ==> (r matches Ok(
            p,
        ) && p.0@ == src@.subrange(4, 4 + le_u32_at(src@, 0) as int) && p.1@ == src@.skip(4 + le_u32_at(src@, 0) as int)),
{
    if src.len() < LEN_SIZE {
        return Err(PacketError::NoPrefix { remaining: src.len() });
    }
    let hdr_size = u32_from_le_bytes(&src[0..LEN_SIZE]) as usize;
    let remaining = src.len() - LEN_SIZE;
    if hdr_size > remaining {
        return Err(PacketError::InvalidHeaderSize { hdr_size, remaining });
    }
    let hdr = &src[LEN_SIZE..LEN_SIZE + hdr_size];
    let body = &src[LEN_SIZE + hdr_size..src.len()];
    Ok((hdr, body))
}

/// The packet `[hdr_size(4)][hdr][body]` for an encoded header and a body.
pub fn encode_packet(hdr: &[u8], body: &[u8]) -> (r: Vec<u8>)
    requires
        LEN_SIZE + hdr@.len() + body@.len() <= u32::MAX,
    ensures
        r@ == packet_bytes(hdr@, body@),
{
    let mut out = u32_to_le_bytes(hdr.len() as u32);
    out.extend_from_slice(hdr);
    out.extend_from_slice(body);
    out
}

/// The network frame `[total_size(4)][hdr_size(4)][hdr][body]`.
pub fn encode_frame(hdr: &[u8], body: &[u8]) -> (r: Vec<u8>)
    requires
        LEN_SIZE + hdr@.len() + body@.len() <= u32::MAX,
    ensures
        r@ == frame_bytes(hdr@, body@),
{
    let packet = encode_packet(hdr, body);
    proof {
        vstd::bytes::lemma_auto_spec_u32_to_from_le_bytes();
        assert(packet@.len() == LEN_SIZE + hdr@.len() + body@.len());
    }
    let mut out = u32_to_le_bytes(packet.len() as u32);
    out.extend_from_slice(packet.as_slice());
    out
}

/// A frame made by `encode_frame` decodes to the same header and body,
/// whatever follows it.
pub proof fn law_frame_roundtrip(hdr: Seq<u8>, body: Seq<u8>, rest: Seq<u8>)
    requires
        LEN_SIZE + hdr.len() + body.len() <= u32::MAX,
    ensures
        ({
            let s = frame_bytes(hdr, body) + rest;
            let size = (LEN_SIZE + hdr.len() + body.len()) as usize;
            &&& spec_decode_frame(s) == FrameStep::Frame { size, hdr_size: hdr.len() as usize }
            &&& s.subrange(8, 8 + hdr.len() as int) == hdr
            &&& s.subrange(8 + hdr.len() as int, 4 + size as int) == body
        }),
{
    vstd::bytes::lemma_auto_spec_u32_to_from_le_bytes();
    let s = frame_bytes(hdr, body) + rest;
    let total = (LEN_SIZE + hdr.len() + body.len()) as u32;
    assert(s.subrange(0, 4) =~= spec_u32_to_le_bytes(total));
    assert(s.subrange(4, 8) =~= spec_u32_to_le_bytes(hdr.len() as u32));
    assert(s.subrange(8, 8 + hdr.len() as int) =~= hdr);
    assert(s.subrange(8 + hdr.len() as int, 8 + hdr.len() + body.len() as int) =~= body);
}

/// A decoder fed a frame in pieces asks for more input until the whole
/// frame has arrived: every strict prefix of a frame is `NeedMore`.
pub proof fn law_partial_frame_needs_more(hdr: Seq<u8>, body: Seq<u8>, k: int)
    requires
        LEN_SIZE + hdr.len() + body.len() <= u32::MAX,
        0 <= k < frame_bytes(hdr, body).len(),
    ensures
        spec_decode_frame(frame_bytes(hdr, body).take(k)) is NeedMore,
{
    vstd::bytes::lemma_auto_spec_u32_to_from_le_bytes();
    let f = frame_bytes(hdr, body);
    let total = (LEN_SIZE + hdr.len() + body.len()) as u32;
    assert(f.len() == 8 + hdr.len() + body.len());
    if k >= 4 {
        assert(f.take(k).subrange(0, 4) =~= spec_u32_to_le_bytes(total));
    }
}

/// A packet made by `encode_packet` splits into the same header and body.
pub proof fn law_packet_roundtrip(hdr: Seq<u8>, body: Seq<u8>)
    requires
        LEN_SIZE + hdr.len() + body.len() <= u32::MAX,
    ensures
        ({
            let s = packet_bytes(hdr, body);
            &&& s.len() >= LEN_SIZE
            &&& le_u32_at(s, 0) == hdr.len()
            &&& s.subrange(4, 4 + hdr.len() as int) == hdr
            &&& s.skip(4 + hdr.len() as int) == body
        }),
{
    vstd::bytes::lemma_auto_spec_u32_to_from_le_bytes();
    let s = packet_bytes(hdr, body);
    assert(s.subrange(0, 4) =~= spec_u32_to_le_bytes(hdr.len() as u32));
    assert(s.subrange(4, 4 + hdr.len() as int) =~= hdr);
    assert(s.skip(4 + hdr.len() as int) =~= body);
}

/// A buffer with a read position that can be rewound to retrieve the whole
/// buffer again.
#[derive(Clone)]
pub struct BufWrapper<T> {
    inner: T,
    pos: usize,
}

impl<T> BufWrapper<T> {
    /// The wrapped buffer.
    pub closed spec fn spec_inner(&self) -> T {
        self.inner
    }

    /// The read position.
    pub closed spec fn spec_pos(&self) -> nat {
        self.pos as nat
    }

    /// Wrap `inner`, reading from its start.
    pub fn new(inner: T) -> (r: BufWrapper<T>)
        ensures
            r.spec_inner() == inner,
            r.spec_pos() == 0,
    {
        BufWrapper { inner, pos: 0 }
    }

    /// Move the read position back to the start.
    pub fn rewind(&mut self)
        ensures
            final(self).spec_inner() == old(self).spec_inner(),
            final(self).spec_pos() == 0,
    {
        self.pos = 0
    }

    /// The wrapped buffer.
    pub fn as_inner(&self) -> (r: &T)
        ensures
            *r == self.spec_inner(),
    {
        &self.inner
    }

    /// The wrapped buffer, mutably; the read position is kept.
    pub fn as_inner_mut(&mut self) -> (r: &mut T)
        ensures
            *r == old(self).spec_inner(),
            final(self).spec_inner() == *final(r),
            final(self).spec_pos() == old(self).spec_pos(),
    {
        &mut self.inner
    }

    /// Unwrap the buffer.
    pub fn into_inner(self) -> (r: T)
        ensures
            r == self.spec_inner(),
    {
        self.inner
    }

    /// Move the read position forward by `cnt` bytes.
    pub fn advance(&mut self, cnt: usize)
        requires
            old(self).spec_pos() + cnt <= usize::MAX,
        ensures
            final(self).spec_inner() == old(self).spec_inner(),
            final(self).spec_pos() == old(self).spec_pos() + cnt,
    {
        self.pos = self.pos + cnt;
    }
}

/// A buffer that can be read as a slice of bytes.
pub trait ByteBuffer {
    /// The bytes the buffer holds.
    spec fn bytes(&self) -> Seq<u8>;

    /// The bytes the buffer holds, as a slice.
    fn as_bytes(&self) -> (r: &[u8])
        ensures
            r@ == self.bytes(),
    ;
}

impl ByteBuffer for Vec<u8> {
    open spec fn bytes(&self) -> Seq<u8> {
        self@
    }

    fn as_bytes(&self) -> (r: &[u8]) {
        self.as_slice()
    }
}

impl<'a> ByteBuffer for &'a [u8] {
    open spec fn bytes(&self) -> Seq<u8> {
        (*self)@
    }

    fn as_bytes(&self) -> (r: &[u8]) {
        *self
    }
}

impl<T: ByteBuffer> BufWrapper<T> {
    /// The bytes of the wrapped buffer.
    pub open spec fn content(&self) -> Seq<u8> {
        self.spec_inner().bytes()
    }

    /// Number of bytes after the read position.
    pub fn remaining(&self) -> (r: usize)
        requires
            self.spec_pos() <= self.content().len(),
        ensures
            r == self.content().len() - self.spec_pos(),
    {
        self.inner.as_bytes().len() - self.pos
    }

    /// The bytes after the read position.
    pub fn chunk(&self) -> (r: &[u8])
        requires
            self.spec_pos() <= self.content().len(),
        ensures
            r@ == self.content().skip(self.spec_pos() as int),
    {
        let b = self.inner.as_bytes();
        &b[self.pos..b.len()]
    }
}

impl BufWrapper<Vec<u8>> {
    /// Empty the buffer and move the read position to the start.
    pub fn clear(&mut self)
        ensures
            final(self).content() == Seq::<u8>::empty(),
            final(self).spec_pos() == 0,
    {
        self.pos = 0;
        self.inner.clear();
    }
}

/// Rewinding makes the whole buffer readable again: after `rewind`, a
/// wrapper over any byte buffer has all of its bytes remaining, the chunk
/// is the whole buffer, and the buffer itself is unchanged.
pub proof fn law_rewind_restores<T: ByteBuffer>(before: BufWrapper<T>, after: BufWrapper<T>)
    requires
        after.spec_inner() == before.spec_inner(),
        after.spec_pos() == 0,
    ensures
        after.content() == before.content(),
        after.content().len() - after.spec_pos() == before.content().len(),
        after.content().skip(after.spec_pos() as int) == before.content(),
{
    assert(after.content().skip(0) =~= after.content());
}

} // verus!
