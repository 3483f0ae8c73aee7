//! Length-prefixed framing of a byte stream and the packet shapes carried in
//! frames: `VarInt(length) || payload`, where a payload is
//! `VarInt(packet_id) || fields`.
use vstd::prelude::*;
use crate::varint::{
    decode_spec, decode_varint, encode_varint, lemma_decode_extend, lemma_decode_prefix,
    lemma_varint_round_trip, varint_bytes, VarIntDecodeError,
};

verus! {

/// Errors of the transport layers; all of them end the connection.
#[derive(Clone, Copy, Debug, PartialEq, Eq, Structural)]
pub enum PacketError {
    /// A length prefix was not a VarInt (a sixth continuation byte) or was negative.
    MalformedLength,
    /// A payload did not start with a readable packet id.
    MalformedPacketId,
    /// A compressed payload did not inflate to its declared length.
    DecompressionFailure,
    /// The deflate stream could not be produced.
    CompressionFailure,
    /// A payload too long for a VarInt length prefix.
    TooLong,
}

/// The largest payload a length prefix can describe.
pub const MAX_FRAME_LEN: usize = 0x7fff_ffff;

/// One frame's payload, as the framer hands it over.
pub struct RawPacket {
    pub data: Vec<u8>,
}

impl RawPacket {
    pub fn new(data: Vec<u8>) -> (r: RawPacket)
        ensures
            r.data@ == data@,
    {
        RawPacket { data }
    }

    pub fn len(&self) -> (r: usize)
        ensures
            r == self.data@.len(),
    {
        self.data.len()
    }

    pub fn into_inner(self) -> (r: Vec<u8>)
        ensures
            r@ == self.data@,
    {
        self.data
    }
}

/// A packet: its id and the bytes of its fields.
pub struct UncompressedPacket {
    pub id: i32,
    pub data: Vec<u8>,
}

/// The bytes that stand for a packet inside a frame: its id, then its fields.
pub open spec fn packet_body(id: i32, data: Seq<u8>) -> Seq<u8> {
    varint_bytes(id) + data
}

/// What a frame's payload says as a packet: the leading id and the rest, or
/// nothing when the id cannot be read.
pub open spec fn parse_packet(b: Seq<u8>) -> Option<(i32, Seq<u8>)> {
    match decode_spec(b) {
        Ok((id, k)) => Some((id, b.skip(k as int))),
        Err(_) => None,
    }
}

impl UncompressedPacket {
    pub open spec fn body(&self) -> Seq<u8> {
        packet_body(self.id, self.data@)
    }

    pub fn new(id: i32, data: Vec<u8>) -> (r: UncompressedPacket)
        ensures
            r.id == id,
            r.data@ == data@,
    {
        UncompressedPacket { id, data }
    }

    pub fn packet_id(&self) -> (r: i32)
        ensures
            r == self.id,
    {
        self.id
    }

    /// Splits a frame's payload into the packet id and the fields.
    pub fn try_from_bytes(b: Vec<u8>) -> (r: Result<UncompressedPacket, PacketError>)
        ensures
            r is Ok <==> parse_packet(b@) is Some,
            r matches Ok(p) ==> parse_packet(b@) == Some((p.id, p.data@)),
            r matches Err(e) ==> e == PacketError::MalformedPacketId,
    {
        match decode_varint(b.as_slice()) {
            Ok((id, k)) => {
                let mut b = b;
                let data = b.split_off(k);
                Ok(UncompressedPacket { id, data })
            },
            Err(_) => Err(PacketError::MalformedPacketId),
        }
    }

    /// The id and the fields, as they stand inside a frame.
    pub fn to_body(&self) -> (r: Vec<u8>)
        ensures
            r@ == self.body(),
    {
        let mut out: Vec<u8> = Vec::new();
        encode_varint(self.id, &mut out);
        let mut i: usize = 0;
        while i < self.data.len()
            invariant
                i <= self.data@.len(),
                out@ == varint_bytes(self.id) + self.data@.take(i as int),
            decreases self.data@.len() - i,
        {
            out.push(self.data[i]);
            i = i + 1;
            assert(out@ =~= varint_bytes(self.id) + self.data@.take(i as int));
        }
        assert(self.data@.take(i as int) =~= self.data@);
        out
    }
}

/// Reading a packet back from its body gives its id and fields.
pub proof fn lemma_parse_body(id: i32, data: Seq<u8>)
    ensures
        parse_packet(packet_body(id, data)) == Some((id, data)),
{
    lemma_varint_round_trip(id);
    lemma_decode_extend(varint_bytes(id), data);
    assert(packet_body(id, data).skip(varint_bytes(id).len() as int) =~= data);
}

/// Where the framer stands between calls: waiting for a length prefix, or
/// holding the length of the frame in progress and waiting for its bytes.
#[derive(Clone, Copy, Debug, PartialEq, Eq, Structural)]
pub enum FrameState {
    AwaitingLength,
    AwaitingBody(usize),
}

/// The result of one framing step.
pub enum FrameResult {
    NoFrame,
    Frame(Seq<u8>),
    Malformed,
}

pub struct FrameOutcome {
    pub state: FrameState,
    pub rest: Seq<u8>,
    pub result: FrameResult,
}

/// With the frame's length known: split it off once all its bytes are there.
pub open spec fn body_step(len: usize, src: Seq<u8>) -> FrameOutcome {
    if src.len() < len {
        FrameOutcome { state: FrameState::AwaitingBody(len), rest: src, result: FrameResult::NoFrame }
    } else {
        FrameOutcome {
            state: FrameState::AwaitingLength,
            rest: src.skip(len as int),
            result: FrameResult::Frame(src.take(len as int)),
        }
    }
}

/// One step of the framer on the buffered input `src`.
pub open spec fn frame_step(state: FrameState, src: Seq<u8>) -> FrameOutcome {
    match state {
        FrameState::AwaitingLength => match decode_spec(src) {
            Err(VarIntDecodeError::Incomplete) => FrameOutcome {
                state,
                rest: src,
                result: FrameResult::NoFrame,
            },
            Err(VarIntDecodeError::TooLarge) => FrameOutcome {
                state,
                rest: src,
                result: FrameResult::Malformed,
            },
            Ok((n, k)) => if n < 0 {
                FrameOutcome { state, rest: src, result: FrameResult::Malformed }
            } else {
                body_step(n as usize, src.skip(k as int))
            },
        },
        FrameState::AwaitingBody(len) => body_step(len, src),
    }
}

/// How a result of the framer reads as a `FrameResult`.
pub open spec fn frame_result_of(r: Result<Option<RawPacket>, PacketError>) -> FrameResult {
    match r {
        Ok(Some(p)) => FrameResult::Frame(p.data@),
        Ok(None) => FrameResult::NoFrame,
        Err(_) => FrameResult::Malformed,
    }
}

/// The bytes of a frame: the payload's length as a VarInt, then the payload.
pub open spec fn frame_bytes(p: Seq<u8>) -> Seq<u8> {
    varint_bytes(p.len() as i32) + p
}

/// Removes the first `k` bytes of `src` and returns them.
fn take_front(src: &mut Vec<u8>, k: usize) -> (head: Vec<u8>)
    requires
        k <= old(src)@.len(),
    ensures
        head@ == old(src)@.take(k as int),
        final(src)@ == old(src)@.skip(k as int),
{
    let mut head = src.split_off(k);
    std::mem::swap(src, &mut head);
    head
}

/// Appends `p` to `dst`, byte by byte.
pub fn append_bytes(dst: &mut Vec<u8>, p: &Vec<u8>)
    ensures
        final(dst)@ == old(dst)@ + p@,
{
    let ghost start = dst@;
    let mut i: usize = 0;
    while i < p.len()
        invariant
            i <= p@.len(),
            dst@ == start + p@.take(i as int),
        decreases p@.len() - i,
    {
        dst.push(p[i]);
        i = i + 1;
        assert(dst@ =~= start + p@.take(i as int));
    }
    assert(p@.take(i as int) =~= p@);
}

/// Splits a byte stream into frames.
pub struct RawPacketCodec {
    pub state: FrameState,
}

impl RawPacketCodec {
    pub fn new() -> (r: RawPacketCodec)
        ensures
            r.state == FrameState::AwaitingLength,
    {
        RawPacketCodec { state: FrameState::AwaitingLength }
    }

    /// Takes the next complete frame off the front of `src`, if there is one.
    /// Without a complete length prefix nothing is consumed; once the prefix
    /// is read it is consumed and its length kept until the frame's bytes have
    /// all arrived.
    pub fn decode(&mut self, src: &mut Vec<u8>) -> (r: Result<Option<RawPacket>, PacketError>)
        ensures
            final(self).state == frame_step(old(self).state, old(src)@).state,
            final(src)@ == frame_step(old(self).state, old(src)@).rest,
            frame_result_of(r) == frame_step(old(self).state, old(src)@).result,
            r matches Err(e) ==> e == PacketError::MalformedLength,
    {
        let len: usize = match self.state {
            FrameState::AwaitingBody(len) => len,
            FrameState::AwaitingLength => match decode_varint(src.as_slice()) {
                Ok((n, k)) => {
                    if n < 0 {
                        return Err(PacketError::MalformedLength);
                    }
                    let _prefix = take_front(src, k);
                    self.state = FrameState::AwaitingBody(n as usize);
                    n as usize
                },
                Err(VarIntDecodeError::Incomplete) => return Ok(None),
                Err(VarIntDecodeError::TooLarge) => return Err(PacketError::MalformedLength),
            },
        };
        if src.len() < len {
            return Ok(None);
        }
        let data = take_front(src, len);
        self.state = FrameState::AwaitingLength;
        Ok(Some(RawPacket { data }))
    }

    /// Appends the frame of `item` to `dst`: its length, then its bytes.
    pub fn encode(&mut self, item: RawPacket, dst: &mut Vec<u8>) -> (r: Result<(), PacketError>)
        ensures
            *final(self) == *old(self),
            r is Ok <==> item.data@.len() <= MAX_FRAME_LEN,
            r is Ok ==> final(dst)@ == old(dst)@ + frame_bytes(item.data@),
            r is Err ==> final(dst)@ == old(dst)@ && r == Err::<(), PacketError>(PacketError::TooLong),
    {
        if item.data.len() > MAX_FRAME_LEN {
            return Err(PacketError::TooLong);
        }
        encode_varint(item.data.len() as i32, dst);
        append_bytes(dst, &item.data);
        Ok(())
    }
}

/// The packet that a framing outcome carries, as `decode` reports it.
pub open spec fn packet_decoded(
    result: FrameResult,
    r: Result<Option<UncompressedPacket>, PacketError>,
) -> bool {
    match result {
        FrameResult::NoFrame => r is Ok && r->Ok_0 is None,
        FrameResult::Malformed => r == Err::<Option<UncompressedPacket>, PacketError>(
            PacketError::MalformedLength,
        ),
        FrameResult::Frame(b) => match parse_packet(b) {
            Some((id, d)) => r matches Ok(Some(p)) && p.id == id && p.data@ == d,
            None => r == Err::<Option<UncompressedPacket>, PacketError>(
                PacketError::MalformedPacketId,
            ),
        },
    }
}

/// Frames whose payload is a packet id followed by the packet's fields.
pub struct UncompressedPacketCodec {
    pub raw_codec: RawPacketCodec,
}

impl UncompressedPacketCodec {
    pub fn new() -> (r: UncompressedPacketCodec)
        ensures
            r.raw_codec.state == FrameState::AwaitingLength,
    {
        UncompressedPacketCodec { raw_codec: RawPacketCodec::new() }
    }

    /// Takes the next complete packet off the front of `src`, if there is one.
    pub fn decode(&mut self, src: &mut Vec<u8>) -> (r: Result<Option<UncompressedPacket>, PacketError>)
        ensures
            final(self).raw_codec.state == frame_step(old(self).raw_codec.state, old(src)@).state,
            final(src)@ == frame_step(old(self).raw_codec.state, old(src)@).rest,
            packet_decoded(frame_step(old(self).raw_codec.state, old(src)@).result, r),
    {
        let raw = match self.raw_codec.decode(src) {
            Ok(Some(packet)) => packet.into_inner(),
            Ok(None) => return Ok(None),
            Err(e) => return Err(e),
        };
        match UncompressedPacket::try_from_bytes(raw) {
            Ok(p) => Ok(Some(p)),
            Err(e) => Err(e),
        }
    }

    /// Appends the frame of `item` to `dst`: the length, the id, the fields.
    pub fn encode(&mut self, item: UncompressedPacket, dst: &mut Vec<u8>) -> (r: Result<(), PacketError>)
        ensures
            *final(self) == *old(self),
            r is Ok <==> item.body().len() <= MAX_FRAME_LEN,
            r is Ok ==> final(dst)@ == old(dst)@ + frame_bytes(item.body()),
            r is Err ==> final(dst)@ == old(dst)@ && r == Err::<(), PacketError>(PacketError::TooLong),
    {
        let body = item.to_body();
        self.raw_codec.encode(RawPacket { data: body }, dst)
    }
}

/// A frame's bytes, followed by anything, come apart into that frame and the
/// rest of the input.
pub proof fn lemma_frame_round_trip(p: Seq<u8>, extra: Seq<u8>)
    requires
        p.len() <= MAX_FRAME_LEN,
    ensures
        frame_step(FrameState::AwaitingLength, frame_bytes(p) + extra) == (FrameOutcome {
            state: FrameState::AwaitingLength,
            rest: extra,
            result: FrameResult::Frame(p),
        }),
{
    let n = p.len() as i32;
    lemma_varint_round_trip(n);
    let v = varint_bytes(n);
    assert(frame_bytes(p) + extra =~= v + (p + extra));
    lemma_decode_extend(v, p + extra);
    let src = frame_bytes(p) + extra;
    assert(src.skip(v.len() as int) =~= p + extra);
    assert((p + extra).take(p.len() as int) =~= p);
    assert((p + extra).skip(p.len() as int) =~= extra);
}

/// A packet written by `UncompressedPacketCodec::encode` reads back, through
/// the framer and the packet-id split that `decode` makes, as the same id and
/// fields, the whole frame consumed; the id takes one to five bytes, five
/// exactly when it is negative or at least 2^28.
pub proof fn lemma_packet_round_trip(id: i32, data: Seq<u8>)
    requires
        packet_body(id, data).len() <= MAX_FRAME_LEN,
    ensures
        frame_step(FrameState::AwaitingLength, frame_bytes(packet_body(id, data))) == (FrameOutcome {
            state: FrameState::AwaitingLength,
            rest: Seq::<u8>::empty(),
            result: FrameResult::Frame(packet_body(id, data)),
        }),
        parse_packet(packet_body(id, data)) == Some((id, data)),
        1 <= varint_bytes(id).len() <= 5,
        varint_bytes(id).len() == 5 <==> (id < 0 || id >= 0x1000_0000),
{
    let body = packet_body(id, data);
    lemma_frame_round_trip(body, Seq::<u8>::empty());
    assert(frame_bytes(body) + Seq::<u8>::empty() =~= frame_bytes(body));
    lemma_parse_body(id, data);
    lemma_varint_round_trip(id);
    crate::varint::lemma_varint_five_bytes(id);
}

/// Where the framer stands, fresh at the start, once the first `k` bytes of
/// the frame of `p` have been handed to it (in any pieces): still waiting for
/// the length prefix and holding those bytes, or, once the prefix is read,
/// waiting for the rest of the payload and holding the part that came.
pub open spec fn partial_frame(p: Seq<u8>, k: nat) -> (FrameState, Seq<u8>) {
    let v = varint_bytes(p.len() as i32);
    if k < v.len() {
        (FrameState::AwaitingLength, frame_bytes(p).take(k as int))
    } else {
        (FrameState::AwaitingBody(p.len() as usize), p.take(k - v.len()))
    }
}

/// Delivering a frame piece by piece, split at any bytes: from where the
/// framer stands after the first `k` bytes, the next piece (up to byte `k2`)
/// yields no frame while the frame is incomplete, and exactly the frame, with
/// nothing left, once its last byte arrives. Nothing has arrived at the start.
pub proof fn lemma_frame_chunked_delivery(p: Seq<u8>, k: nat, k2: nat)
    requires
        p.len() <= MAX_FRAME_LEN,
        k <= k2 <= frame_bytes(p).len(),
        k < frame_bytes(p).len(),
    ensures
        partial_frame(p, 0) == (FrameState::AwaitingLength, Seq::<u8>::empty()),
        ({
            let (state, held) = partial_frame(p, k);
            let o = frame_step(state, held + frame_bytes(p).subrange(k as int, k2 as int));
            &&& k2 < frame_bytes(p).len() ==> o == (FrameOutcome {
                state: partial_frame(p, k2).0,
                rest: partial_frame(p, k2).1,
                result: FrameResult::NoFrame,
            })
            &&& k2 == frame_bytes(p).len() ==> o == (FrameOutcome {
                state: FrameState::AwaitingLength,
                rest: Seq::<u8>::empty(),
                result: FrameResult::Frame(p),
            })
        }),
{
    let n = p.len() as i32;
    lemma_varint_round_trip(n);
    let v = varint_bytes(n);
    let f = frame_bytes(p);
    assert(v.len() >= 1);
    assert(f.take(0) =~= Seq::<u8>::empty());
    let (state, held) = partial_frame(p, k);
    let src = held + f.subrange(k as int, k2 as int);
    assert(n as usize == p.len());
    if k < v.len() {
        assert(src =~= f.take(k2 as int));
        if k2 < v.len() {
            assert(src =~= v.take(k2 as int));
            lemma_decode_prefix(v, k2);
        } else {
            let got = (k2 - v.len()) as nat;
            assert(src =~= v + p.take(got as int));
            lemma_decode_extend(v, p.take(got as int));
            assert(src.skip(v.len() as int) =~= p.take(got as int));
            if k2 == f.len() {
                assert(got == p.len());
                assert(p.take(p.len() as int) =~= p);
                assert(p.skip(p.len() as int) =~= Seq::<u8>::empty());
            }
        }
    } else {
        let got = (k2 - v.len()) as nat;
        assert(src =~= p.take(got as int));
        if k2 == f.len() {
            assert(got == p.len());
            assert(p.take(p.len() as int) =~= p);
            assert(p.skip(p.len() as int) =~= Seq::<u8>::empty());
        }
    }
}

} // verus!
