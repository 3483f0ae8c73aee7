//! The per-connection decode and encode pipelines. Decoding buffers incoming
//! bytes, splits off frames and, once compression is on, inflates them;
//! encoding is the inverse. Both are switched to compression by the session
//! at the same point of the stream.
use vstd::prelude::*;
use crate::codec::{
    frame_bytes, frame_step, FrameResult, FrameState, PacketError, RawPacket, RawPacketCodec,
    UncompressedPacket, MAX_FRAME_LEN,
};
use crate::compression::{
    append_compressed_frame, body_packet, compressed_frame, decompress_packet, inflated_packet,
    parse_compressed, CompressedPacket, CompressedPacketCodec,
};

verus! {

/// The packet that one frame's payload carries, with compression on or off.
pub open spec fn frame_packet(compression: bool, frame: Seq<u8>) -> Result<(i32, Seq<u8>), PacketError> {
    if !compression {
        body_packet(frame)
    } else {
        match parse_compressed(frame) {
            None => Err(PacketError::MalformedLength),
            Some((n, d)) => inflated_packet(n, d),
        }
    }
}

/// What one decoding step reports, given the framing step's result.
pub open spec fn decode_result(
    compression: bool,
    result: FrameResult,
    r: Result<Option<UncompressedPacket>, PacketError>,
) -> bool {
    match result {
        FrameResult::NoFrame => r matches Ok(None),
        FrameResult::Malformed => r == Err::<Option<UncompressedPacket>, PacketError>(
            PacketError::MalformedLength,
        ),
        FrameResult::Frame(b) => match frame_packet(compression, b) {
            Ok((id, d)) => r matches Ok(Some(p)) && p.id == id && p.data@ == d,
            Err(e) => r == Err::<Option<UncompressedPacket>, PacketError>(e),
        },
    }
}

/// Incoming side of a connection: bytes not yet framed, the framer's state,
/// and whether frames carry compressed packets.
pub struct PacketDecoder {
    pub buf: Vec<u8>,
    pub framer: RawPacketCodec,
    pub compression: bool,
}

impl PacketDecoder {
    pub fn new() -> (r: PacketDecoder)
        ensures
            r.buf@ == Seq::<u8>::empty(),
            r.framer.state == FrameState::AwaitingLength,
            !r.compression,
    {
        PacketDecoder { buf: Vec::new(), framer: RawPacketCodec::new(), compression: false }
    }

    /// Appends bytes read from the socket (already decrypted).
    pub fn queue_slice(&mut self, bytes: &[u8])
        ensures
            final(self).buf@ == old(self).buf@ + bytes@,
            final(self).framer == old(self).framer,
            final(self).compression == old(self).compression,
    {
        let mut i: usize = 0;
        let ghost start = self.buf@;
        while i < bytes.len()
            invariant
                i <= bytes@.len(),
                self.buf@ == start + bytes@.take(i as int),
                self.framer == old(self).framer,
                self.compression == old(self).compression,
            decreases bytes@.len() - i,
        {
            self.buf.push(bytes[i]);
            i = i + 1;
            assert(self.buf@ =~= start + bytes@.take(i as int));
        }
        assert(bytes@.take(i as int) =~= bytes@);
    }

    /// From here on frames carry compressed packets when `threshold` is given.
    pub fn set_compression(&mut self, threshold: Option<u32>)
        ensures
            final(self).compression == threshold is Some,
            final(self).buf == old(self).buf,
            final(self).framer == old(self).framer,
    {
        self.compression = threshold.is_some();
    }

    /// The next complete packet from the buffered bytes, if there is one;
    /// `Ok(None)` when more bytes are needed.
    pub fn decode(&mut self) -> (r: Result<Option<UncompressedPacket>, PacketError>)
        ensures
            final(self).framer.state == frame_step(old(self).framer.state, old(self).buf@).state,
            final(self).buf@ == frame_step(old(self).framer.state, old(self).buf@).rest,
            final(self).compression == old(self).compression,
            decode_result(
                old(self).compression,
                frame_step(old(self).framer.state, old(self).buf@).result,
                r,
            ),
    {
        let raw = match self.framer.decode(&mut self.buf) {
            Ok(Some(packet)) => packet.into_inner(),
            Ok(None) => return Ok(None),
            Err(e) => return Err(e),
        };
        if !self.compression {
            return match UncompressedPacket::try_from_bytes(raw) {
                Ok(p) => Ok(Some(p)),
                Err(e) => Err(e),
            };
        }
        let compressed = match CompressedPacket::try_from_bytes(raw) {
            Ok(c) => c,
            Err(e) => return Err(e),
        };
        match decompress_packet(compressed) {
            Ok(p) => Ok(Some(p)),
            Err(e) => Err(e),
        }
    }

    /// Drops the bytes buffered so far.
    pub fn clear(&mut self)
        ensures
            final(self).buf@ == Seq::<u8>::empty(),
            final(self).framer == old(self).framer,
            final(self).compression == old(self).compression,
    {
        self.buf.clear();
    }
}

/// The frame that carries `body` under the compression setting `compression`
/// (threshold and level), or uncompressed.
pub open spec fn encoded_frame(compression: Option<(u32, u32)>, body: Seq<u8>) -> Seq<u8> {
    match compression {
        None => frame_bytes(body),
        Some((threshold, level)) => compressed_frame(level, Some(threshold as usize), body),
    }
}

/// Outgoing side of a connection: bytes ready for the socket (before
/// encryption), and the compression threshold and level once compression is on.
pub struct PacketEncoder {
    pub buf: Vec<u8>,
    pub compression: Option<(u32, u32)>,
}

impl PacketEncoder {
    pub open spec fn wf(&self) -> bool {
        self.compression matches Some((_, level)) ==> level <= 9
    }

    pub fn new() -> (r: PacketEncoder)
        ensures
            r.wf(),
            r.buf@ == Seq::<u8>::empty(),
            r.compression is None,
    {
        PacketEncoder { buf: Vec::new(), compression: None }
    }

    /// From here on packets are compressed from `threshold` bytes on, at
    /// `level`; `None` turns compression off.
    pub fn set_compression(&mut self, compression: Option<(u32, u32)>)
        requires
            compression matches Some((_, level)) ==> level <= 9,
        ensures
            final(self).wf(),
            final(self).compression == compression,
            final(self).buf == old(self).buf,
    {
        self.compression = compression;
    }

    /// Appends the frame of `packet` to the outgoing bytes.
    pub fn append_packet(&mut self, packet: &UncompressedPacket) -> (r: Result<(), PacketError>)
        requires
            old(self).wf(),
        ensures
            final(self).wf(),
            final(self).compression == old(self).compression,
            r is Ok ==> final(self).buf@ == old(self).buf@ + encoded_frame(
                old(self).compression,
                packet.body(),
            ),
            r is Err ==> final(self).buf@ == old(self).buf@,
            packet.body().len() < MAX_FRAME_LEN && (old(self).compression matches Some((t, _))
                ==> packet.body().len() < t) ==> r is Ok,
    {
        let body = packet.to_body();
        match self.compression {
            None => {
                let mut raw = RawPacketCodec::new();
                raw.encode(RawPacket { data: body }, &mut self.buf)
            },
            Some((threshold, level)) => {
                if body.len() > MAX_FRAME_LEN {
                    return Err(PacketError::TooLong);
                }
                let codec = CompressedPacketCodec::new(level, Some(threshold as usize));
                let compressed = match codec.compress(packet) {
                    Ok(c) => c,
                    Err(e) => return Err(e),
                };
                append_compressed_frame(compressed, &mut self.buf)
            },
        }
    }

    /// Hands over the outgoing bytes and empties the buffer.
    pub fn take(&mut self) -> (r: Vec<u8>)
        ensures
            r@ == old(self).buf@,
            final(self).buf@ == Seq::<u8>::empty(),
            final(self).compression == old(self).compression,
    {
        let mut out: Vec<u8> = Vec::new();
        std::mem::swap(&mut out, &mut self.buf);
        out
    }
}

} // verus!
