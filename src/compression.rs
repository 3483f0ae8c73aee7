//! Threshold-gated zlib compression of packets. Inside a frame a compressed
//! packet is `VarInt(uncompressed_length) || data`: a length of 0 says that
//! `data` is the packet body verbatim, any other length that `data` is the
//! zlib stream of a body of that many bytes.
use vstd::prelude::*;
use crate::varint::{
    decode_spec, decode_varint, encode_varint, lemma_varint_round_trip, varint_bytes,
};
use crate::codec::{
    append_bytes, frame_bytes, frame_step, lemma_parse_body, packet_body, parse_packet, FrameResult,
    FrameState, PacketError, RawPacket, RawPacketCodec, UncompressedPacket, MAX_FRAME_LEN,
};

verus! {

/// The zlib stream that flate2 writes for `data` at compression level `level`.
pub uninterp spec fn zlib_deflate(level: u32, data: Seq<u8>) -> Seq<u8>;

/// The bytes that flate2 inflates from the zlib stream `data`, read up to the
/// stream's end but no more than `limit` of them, or `None` where reading
/// fails (a corrupt or truncated stream).
pub uninterp spec fn zlib_inflate_prefix(data: Seq<u8>, limit: nat) -> Option<Seq<u8>>;

/// Relies on flate2's `write::ZlibEncoder` (with `Compression::new(level)`,
/// which miniz_oxide only accepts up to level 10): the zlib stream of `data`.
#[verifier::external_body]
fn deflate(level: u32, data: &[u8]) -> (r: Option<Vec<u8>>)
    requires
        level <= 9,
    ensures
        r matches Some(v) ==> v@ == zlib_deflate(level, data@),
{
    let mut encoder = flate2::write::ZlibEncoder::new(Vec::new(), flate2::Compression::new(level));
    std::io::Write::write_all(&mut encoder, data).ok()?;
    encoder.finish().ok()
}

/// Relies on flate2's `read::ZlibDecoder`, with `Read::take(limit)` and
/// `Read::read_to_end`: what the stream inflates to, cut at `limit` bytes.
/// zlib's lossless round trip makes it the bytes the stream was made from
/// when `data` is the stream flate2 wrote for them and they fit the limit.
#[verifier::external_body]
fn inflate_limited(data: &[u8], limit: u64) -> (r: Option<Vec<u8>>)
    ensures
        r is Some <==> zlib_inflate_prefix(data@, limit as nat) is Some,
        r matches Some(v) ==> v@ == zlib_inflate_prefix(data@, limit as nat)->0 && v@.len() <= limit,
        forall|level: u32, x: Seq<u8>|
            #[trigger] zlib_deflate(level, x) == data@ && x.len() <= limit ==> r is Some && r->0@ == x,
{
    let decoder = flate2::read::ZlibDecoder::new(data);
    let mut out = Vec::new();
    std::io::Read::read_to_end(&mut std::io::Read::take(decoder, limit), &mut out).ok()?;
    Some(out)
}

/// How many inflated bytes are read for a declared length: one more than
/// declared, so that a stream that inflates to more is seen.
pub open spec fn inflate_limit(declared: nat) -> nat {
    if declared < u64::MAX {
        declared + 1
    } else {
        declared
    }
}

/// A packet as it stands in a frame once compression is on.
pub struct CompressedPacket {
    /// The length of the body before compression; 0 when it was not compressed.
    pub uncompressed_len: usize,
    pub data: Vec<u8>,
}

impl CompressedPacket {
    pub fn new(uncompressed_len: usize, data: Vec<u8>) -> (r: CompressedPacket)
        ensures
            r.uncompressed_len == uncompressed_len,
            r.data@ == data@,
    {
        CompressedPacket { uncompressed_len, data }
    }

    /// The frame payload: the declared length, then the data.
    pub open spec fn payload(&self) -> Seq<u8> {
        varint_bytes(self.uncompressed_len as i32) + self.data@
    }

    /// Splits a frame payload into the declared length and the data.
    pub fn try_from_bytes(b: Vec<u8>) -> (r: Result<CompressedPacket, PacketError>)
        ensures
            r is Ok <==> parse_compressed(b@) is Some,
            r matches Ok(c) ==> parse_compressed(b@) == Some((c.uncompressed_len as nat, c.data@)),
            r is Err ==> r == Err::<CompressedPacket, PacketError>(PacketError::MalformedLength),
    {
        match decode_varint(b.as_slice()) {
            Ok((n, k)) => {
                if n < 0 {
                    return Err(PacketError::MalformedLength);
                }
                let mut b = b;
                let data = b.split_off(k);
                Ok(CompressedPacket { uncompressed_len: n as usize, data })
            },
            Err(_) => Err(PacketError::MalformedLength),
        }
    }
}

/// A frame payload read as a compressed packet: the declared length and the data.
pub open spec fn parse_compressed(b: Seq<u8>) -> Option<(nat, Seq<u8>)> {
    match decode_spec(b) {
        Ok((n, k)) => if n < 0 {
            None
        } else {
            Some((n as nat, b.skip(k as int)))
        },
        Err(_) => None,
    }
}

/// How a packet body is carried once compression is on: below the threshold
/// as it is, behind the sentinel 0; otherwise deflated, behind its length.
pub open spec fn compressed_form(level: u32, threshold: Option<usize>, body: Seq<u8>) -> (nat, Seq<u8>) {
    if threshold matches Some(t) && body.len() < t {
        (0, body)
    } else {
        (body.len(), zlib_deflate(level, body))
    }
}

/// The frame that carries `body` once compression is on.
pub open spec fn compressed_frame(level: u32, threshold: Option<usize>, body: Seq<u8>) -> Seq<u8> {
    let (n, d) = compressed_form(level, threshold, body);
    frame_bytes(varint_bytes(n as i32) + d)
}

/// Appends the frame of a compressed packet whose declared length fits a
/// VarInt: the payload's length, the declared length, the data.
pub fn append_compressed_frame(c: CompressedPacket, dst: &mut Vec<u8>) -> (r: Result<(), PacketError>)
    requires
        c.uncompressed_len <= MAX_FRAME_LEN,
    ensures
        r is Ok <==> c.payload().len() <= MAX_FRAME_LEN,
        r is Ok ==> final(dst)@ == old(dst)@ + frame_bytes(c.payload()),
        r is Err ==> final(dst)@ == old(dst)@ && r == Err::<(), PacketError>(PacketError::TooLong),
{
    let mut payload: Vec<u8> = Vec::new();
    encode_varint(c.uncompressed_len as i32, &mut payload);
    append_bytes(&mut payload, &c.data);
    let mut raw = RawPacketCodec::new();
    raw.encode(RawPacket { data: payload }, dst)
}

/// The body that a compressed packet stands for, or `None` where it does not
/// inflate to exactly its declared length.
pub open spec fn inflated_body(declared: nat, data: Seq<u8>) -> Option<Seq<u8>> {
    if declared == 0 {
        Some(data)
    } else {
        match zlib_inflate_prefix(data, inflate_limit(declared)) {
            Some(b) => if b.len() == declared {
                Some(b)
            } else {
                None
            },
            None => None,
        }
    }
}

/// A packet as an id and the bytes of its fields, or the error met.
pub open spec fn packet_result(r: Result<UncompressedPacket, PacketError>) -> Result<(i32, Seq<u8>), PacketError> {
    match r {
        Ok(p) => Ok((p.id, p.data@)),
        Err(e) => Err(e),
    }
}

/// Reads a body as a packet, or fails with `MalformedPacketId`.
pub open spec fn body_packet(b: Seq<u8>) -> Result<(i32, Seq<u8>), PacketError> {
    match parse_packet(b) {
        Some(x) => Ok(x),
        None => Err(PacketError::MalformedPacketId),
    }
}

/// The packet a compressed packet stands for, or the error met on the way.
pub open spec fn inflated_packet(declared: nat, data: Seq<u8>) -> Result<(i32, Seq<u8>), PacketError> {
    match inflated_body(declared, data) {
        None => Err(PacketError::DecompressionFailure),
        Some(b) => body_packet(b),
    }
}

/// Frames of compressed packets, with the compression level and the threshold
/// below which bodies go uncompressed (`None`: every body is compressed).
pub struct CompressedPacketCodec {
    pub raw_codec: RawPacketCodec,
    pub compression_level: u32,
    pub threshold: Option<usize>,
}

impl CompressedPacketCodec {
    pub open spec fn wf(&self) -> bool {
        self.compression_level <= 9
    }

    pub fn new(compression_level: u32, threshold: Option<usize>) -> (r: CompressedPacketCodec)
        requires
            compression_level <= 9,
        ensures
            r.wf(),
            r.raw_codec.state == FrameState::AwaitingLength,
            r.compression_level == compression_level,
            r.threshold == threshold,
    {
        CompressedPacketCodec { raw_codec: RawPacketCodec::new(), compression_level, threshold }
    }

    /// Compresses `packet` when its body reaches the threshold.
    pub fn compress(&self, packet: &UncompressedPacket) -> (r: Result<CompressedPacket, PacketError>)
        requires
            self.wf(),
        ensures
            r matches Ok(c) ==> (c.uncompressed_len as nat, c.data@) == compressed_form(
                self.compression_level,
                self.threshold,
                packet.body(),
            ),
            (self.threshold matches Some(t) && packet.body().len() < t) ==> r is Ok,
            r is Err ==> r == Err::<CompressedPacket, PacketError>(PacketError::CompressionFailure),
    {
        let body = packet.to_body();
        if let Some(threshold) = self.threshold {
            if body.len() < threshold {
                return Ok(CompressedPacket { uncompressed_len: 0, data: body });
            }
        }
        match deflate(self.compression_level, body.as_slice()) {
            Some(data) => Ok(CompressedPacket { uncompressed_len: body.len(), data }),
            None => Err(PacketError::CompressionFailure),
        }
    }

    /// Takes the next complete compressed packet off the front of `src`, if
    /// there is one.
    pub fn decode(&mut self, src: &mut Vec<u8>) -> (r: Result<Option<CompressedPacket>, PacketError>)
        ensures
            final(self).raw_codec.state == frame_step(old(self).raw_codec.state, old(src)@).state,
            final(self).compression_level == old(self).compression_level,
            final(self).threshold == old(self).threshold,
            final(src)@ == frame_step(old(self).raw_codec.state, old(src)@).rest,
            match frame_step(old(self).raw_codec.state, old(src)@).result {
                FrameResult::NoFrame => r matches Ok(None),
                FrameResult::Malformed => r == Err::<Option<CompressedPacket>, PacketError>(
                    PacketError::MalformedLength,
                ),
                FrameResult::Frame(b) => match parse_compressed(b) {
                    Some((n, d)) => r matches Ok(Some(c)) && c.uncompressed_len == n
                        && c.data@ == d,
                    None => r == Err::<Option<CompressedPacket>, PacketError>(
                        PacketError::MalformedLength,
                    ),
                },
            },
    {
        let raw = match self.raw_codec.decode(src) {
            Ok(Some(packet)) => packet.into_inner(),
            Ok(None) => return Ok(None),
            Err(e) => return Err(e),
        };
        match CompressedPacket::try_from_bytes(raw) {
            Ok(c) => Ok(Some(c)),
            Err(e) => Err(e),
        }
    }

    /// Appends the frame of `item` to `dst`: compressed as `compress` does,
    /// then prefixed by the declared length and framed.
    pub fn encode(&mut self, item: UncompressedPacket, dst: &mut Vec<u8>) -> (r: Result<(), PacketError>)
        requires
            old(self).wf(),
        ensures
            *final(self) == *old(self),
            r is Ok ==> final(dst)@ == old(dst)@ + compressed_frame(
                old(self).compression_level,
                old(self).threshold,
                item.body(),
            ),
            r is Err ==> final(dst)@ == old(dst)@,
            (old(self).threshold matches Some(t) && item.body().len() < t && item.body().len()
                < MAX_FRAME_LEN) ==> r is Ok,
    {
        let body_len = item.to_body().len();
        if body_len > MAX_FRAME_LEN {
            return Err(PacketError::TooLong);
        }
        let compressed = match self.compress(&item) {
            Ok(c) => c,
            Err(e) => return Err(e),
        };
        append_compressed_frame(compressed, dst)
    }

    /// Recovers the packet from a compressed packet. Whatever `compress` made
    /// of a packet comes back as that packet.
    pub fn decompress(&self, packet: CompressedPacket) -> (r: Result<UncompressedPacket, PacketError>)
        ensures
            packet_result(r) == inflated_packet(packet.uncompressed_len as nat, packet.data@),
            forall|level: u32, threshold: Option<usize>, id: i32, fields: Seq<u8>|
                #[trigger] compressed_form(level, threshold, packet_body(id, fields)) == (
                    packet.uncompressed_len as nat,
                    packet.data@,
                ) ==> (r matches Ok(p) && p.id == id && p.data@ == fields),
    {
        decompress_packet(packet)
    }
}

/// Recovers the packet from a compressed packet; see `CompressedPacketCodec::decompress`.
pub fn decompress_packet(packet: CompressedPacket) -> (r: Result<UncompressedPacket, PacketError>)
    ensures
        packet_result(r) == inflated_packet(packet.uncompressed_len as nat, packet.data@),
        forall|level: u32, threshold: Option<usize>, id: i32, fields: Seq<u8>|
            #[trigger] compressed_form(level, threshold, packet_body(id, fields)) == (
                packet.uncompressed_len as nat,
                packet.data@,
            ) ==> (r matches Ok(p) && p.id == id && p.data@ == fields),
{
    let declared = packet.uncompressed_len;
    let ghost data = packet.data@;
    let body = if declared == 0 {
        packet.data
    } else {
        let limit: u64 = if (declared as u64) < u64::MAX {
            declared as u64 + 1
        } else {
            declared as u64
        };
        match inflate_limited(packet.data.as_slice(), limit) {
            Some(b) if b.len() == declared => b,
            _ => {
                assert forall|level: u32, threshold: Option<usize>, id: i32, fields: Seq<u8>|
                    #[trigger] compressed_form(level, threshold, packet_body(id, fields)) == (
                        declared as nat,
                        data,
                    ) implies false by {
                    lemma_varint_round_trip(id);
                }
                return Err(PacketError::DecompressionFailure);
            },
        }
    };
    assert(inflated_body(declared as nat, data) == Some(body@));
    assert forall|level: u32, threshold: Option<usize>, id: i32, fields: Seq<u8>|
        #[trigger] compressed_form(level, threshold, packet_body(id, fields)) == (
            declared as nat,
            data,
        ) implies body@ == packet_body(id, fields) by {
        lemma_varint_round_trip(id);
    }
    let r = UncompressedPacket::try_from_bytes(body);
    assert forall|level: u32, threshold: Option<usize>, id: i32, fields: Seq<u8>|
        #[trigger] compressed_form(level, threshold, packet_body(id, fields)) == (
            declared as nat,
            data,
        ) implies (r matches Ok(p) && p.id == id && p.data@ == fields) by {
        lemma_parse_body(id, fields);
    }
    r
}

} // verus!
