use pumpkin::codec::{PacketError, RawPacket, RawPacketCodec, UncompressedPacket, UncompressedPacketCodec};
use pumpkin::compression::{CompressedPacket, CompressedPacketCodec};
use pumpkin::pipeline::{PacketDecoder, PacketEncoder};
use pumpkin::varint::{decode_varint, encode_varint, VarIntDecodeError};

fn enc(n: i32) -> Vec<u8> {
    let mut out = Vec::new();
    encode_varint(n, &mut out);
    out
}

fn frame(payload: &[u8]) -> Vec<u8> {
    let mut out = Vec::new();
    RawPacketCodec::new().encode(RawPacket::new(payload.to_vec()), &mut out).unwrap();
    out
}

#[test]
fn varint_known_encodings() {
    assert_eq!(enc(0), vec![0x00]);
    assert_eq!(enc(1), vec![0x01]);
    assert_eq!(enc(127), vec![0x7f]);
    assert_eq!(enc(128), vec![0x80, 0x01]);
    assert_eq!(enc(255), vec![0xff, 0x01]);
    assert_eq!(enc(25565), vec![0xdd, 0xc7, 0x01]);
    assert_eq!(enc(2097151), vec![0xff, 0xff, 0x7f]);
    assert_eq!(enc(2147483647), vec![0xff, 0xff, 0xff, 0xff, 0x07]);
    assert_eq!(enc(-1), vec![0xff, 0xff, 0xff, 0xff, 0x0f]);
    assert_eq!(enc(-2147483648), vec![0x80, 0x80, 0x80, 0x80, 0x08]);
}

#[test]
fn varint_round_trip_values() {
    for n in [0, 1, -1, 127, 128, 300, 25565, -25565, i32::MAX, i32::MIN, 1 << 21, 1 << 28] {
        let bytes = enc(n);
        assert!(bytes.len() >= 1 && bytes.len() <= 5);
        assert_eq!(decode_varint(&bytes), Ok((n, bytes.len())));
        assert_eq!(enc(n), bytes);
    }
}

#[test]
fn varint_decode_leaves_trailing_bytes() {
    assert_eq!(decode_varint(&[0xac, 0x02, 0x99, 0x01]), Ok((300, 2)));
}

#[test]
fn varint_sixth_byte_is_too_large() {
    assert_eq!(decode_varint(&[0x80, 0x80, 0x80, 0x80, 0x80, 0x01]), Err(VarIntDecodeError::TooLarge));
    assert_eq!(decode_varint(&[0xff, 0xff, 0xff, 0xff, 0xff]), Err(VarIntDecodeError::TooLarge));
}

#[test]
fn varint_incomplete() {
    assert_eq!(decode_varint(&[]), Err(VarIntDecodeError::Incomplete));
    assert_eq!(decode_varint(&[0x80]), Err(VarIntDecodeError::Incomplete));
    assert_eq!(decode_varint(&[0xff, 0xff, 0xff, 0xff]), Err(VarIntDecodeError::Incomplete));
}

#[test]
fn frame_round_trip() {
    let payload: Vec<u8> = (0..200u32).map(|i| i as u8).collect();
    let mut buf = frame(&payload);
    assert_eq!(buf[0], 0xc8);
    assert_eq!(buf[1], 0x01);
    buf.extend_from_slice(&[7, 7]);
    let mut codec = RawPacketCodec::new();
    let got = codec.decode(&mut buf).unwrap().unwrap();
    assert_eq!(got.into_inner(), payload);
    assert_eq!(buf, vec![7, 7]);
}

#[test]
fn frame_split_delivery_at_every_byte() {
    let payload = vec![1u8, 2, 3, 4, 5, 6, 7, 8, 9, 10];
    let whole = frame(&payload);
    for k in 0..whole.len() {
        let mut codec = RawPacketCodec::new();
        let mut buf = whole[..k].to_vec();
        assert!(codec.decode(&mut buf).unwrap().is_none());
        buf.extend_from_slice(&whole[k..]);
        let got = codec.decode(&mut buf).unwrap().unwrap();
        assert_eq!(got.into_inner(), payload);
        assert!(buf.is_empty());
        assert!(codec.decode(&mut buf).unwrap().is_none());
    }
}

#[test]
fn frame_byte_by_byte() {
    let payload = vec![9u8; 300];
    let whole = frame(&payload);
    let mut codec = RawPacketCodec::new();
    let mut buf = Vec::new();
    let mut frames = 0;
    for b in whole {
        buf.push(b);
        if let Some(p) = codec.decode(&mut buf).unwrap() {
            assert_eq!(p.into_inner(), payload);
            frames += 1;
        }
    }
    assert_eq!(frames, 1);
}

#[test]
fn frame_empty_payload() {
    let mut buf = frame(&[]);
    assert_eq!(buf, vec![0]);
    let mut codec = RawPacketCodec::new();
    assert_eq!(codec.decode(&mut buf).unwrap().unwrap().len(), 0);
}

#[test]
fn frame_malformed_length() {
    let mut codec = RawPacketCodec::new();
    let mut buf = vec![0x80, 0x80, 0x80, 0x80, 0x80, 0x01];
    assert_eq!(codec.decode(&mut buf).err(), Some(PacketError::MalformedLength));
    let mut negative = vec![0xff, 0xff, 0xff, 0xff, 0x0f];
    assert_eq!(RawPacketCodec::new().decode(&mut negative).err(), Some(PacketError::MalformedLength));
}

#[test]
fn uncompressed_codec_round_trip() {
    let mut codec = UncompressedPacketCodec::new();
    let mut buf = Vec::new();
    codec.encode(UncompressedPacket::new(0x2f, vec![1, 2, 3]), &mut buf).unwrap();
    assert_eq!(buf, vec![4, 0x2f, 1, 2, 3]);
    let p = codec.decode(&mut buf).unwrap().unwrap();
    assert_eq!(p.id, 0x2f);
    assert_eq!(p.data, vec![1, 2, 3]);
}

#[test]
fn uncompressed_codec_bad_packet_id() {
    let mut codec = UncompressedPacketCodec::new();
    let mut buf = vec![1, 0x80];
    assert_eq!(codec.decode(&mut buf).err(), Some(PacketError::MalformedPacketId));
}

#[test]
fn compress_below_threshold_passes_through() {
    let codec = CompressedPacketCodec::new(6, Some(256));
    let packet = UncompressedPacket::new(5, vec![0xaa; 10]);
    let c = codec.compress(&packet).unwrap();
    assert_eq!(c.uncompressed_len, 0);
    let mut body = vec![5];
    body.extend_from_slice(&[0xaa; 10]);
    assert_eq!(c.data, body);
    let back = codec.decompress(c).unwrap();
    assert_eq!(back.id, 5);
    assert_eq!(back.data, vec![0xaa; 10]);
}

#[test]
fn compress_at_threshold_deflates() {
    let codec = CompressedPacketCodec::new(6, Some(256));
    let fields: Vec<u8> = (0..255u32).map(|i| (i % 7) as u8).collect();
    let packet = UncompressedPacket::new(3, fields.clone());
    let c = codec.compress(&packet).unwrap();
    assert_eq!(c.uncompressed_len, 256);
    assert_ne!(c.data.len(), 256);
    let back = codec.decompress(c).unwrap();
    assert_eq!(back.id, 3);
    assert_eq!(back.data, fields);
}

#[test]
fn compress_without_threshold_always_deflates() {
    let codec = CompressedPacketCodec::new(1, None);
    let packet = UncompressedPacket::new(0, vec![1]);
    let c = codec.compress(&packet).unwrap();
    assert_eq!(c.uncompressed_len, 2);
    let back = codec.decompress(c).unwrap();
    assert_eq!((back.id, back.data), (0, vec![1]));
}

#[test]
fn decompress_short_stream_fails() {
    let codec = CompressedPacketCodec::new(6, Some(4));
    let packet = UncompressedPacket::new(1, vec![2; 40]);
    let c = codec.compress(&packet).unwrap();
    let lying = CompressedPacket::new(c.uncompressed_len + 10, c.data);
    assert_eq!(codec.decompress(lying).err(), Some(PacketError::DecompressionFailure));
    let garbage = CompressedPacket::new(10, vec![1, 2, 3]);
    assert_eq!(codec.decompress(garbage).err(), Some(PacketError::DecompressionFailure));
}

#[test]
fn compressed_codec_frames() {
    let mut codec = CompressedPacketCodec::new(6, Some(64));
    let mut buf = Vec::new();
    codec.encode(UncompressedPacket::new(7, vec![1, 2]), &mut buf).unwrap();
    assert_eq!(buf, vec![4, 0, 7, 1, 2]);
    let c = codec.decode(&mut buf).unwrap().unwrap();
    assert_eq!(c.uncompressed_len, 0);
    assert_eq!(c.data, vec![7, 1, 2]);
}

#[test]
fn compression_threshold_256_scenario() {
    let mut encoder = PacketEncoder::new();
    encoder.set_compression(Some((256, 6)));
    let small = UncompressedPacket::new(0, vec![0x11; 9]);
    encoder.append_packet(&small).unwrap();
    let small_bytes = encoder.take();
    assert_eq!(small_bytes[0] as usize, small_bytes.len() - 1);
    assert_eq!(small_bytes[1], 0);
    assert_eq!(&small_bytes[2..], &[0, 0x11, 0x11, 0x11, 0x11, 0x11, 0x11, 0x11, 0x11, 0x11][..]);

    let fields: Vec<u8> = (0..499u32).map(|i| (i * 31 % 251) as u8).collect();
    let big = UncompressedPacket::new(0, fields.clone());
    encoder.append_packet(&big).unwrap();
    let big_bytes = encoder.take();
    let (len, k) = decode_varint(&big_bytes).unwrap();
    assert_eq!(len as usize, big_bytes.len() - k);
    let (sentinel, _) = decode_varint(&big_bytes[k..]).unwrap();
    assert_eq!(sentinel, 500);

    let mut decoder = PacketDecoder::new();
    decoder.set_compression(Some(256));
    decoder.queue_slice(&small_bytes);
    decoder.queue_slice(&big_bytes);
    let a = decoder.decode().unwrap().unwrap();
    assert_eq!((a.id, a.data), (0, vec![0x11; 9]));
    let b = decoder.decode().unwrap().unwrap();
    assert_eq!((b.id, b.data), (0, fields));
    assert!(decoder.decode().unwrap().is_none());
}

#[test]
fn pipeline_without_compression() {
    let mut encoder = PacketEncoder::new();
    encoder.append_packet(&UncompressedPacket::new(1, vec![5, 6])).unwrap();
    let bytes = encoder.take();
    assert_eq!(bytes, vec![3, 1, 5, 6]);
    assert!(encoder.take().is_empty());
    let mut decoder = PacketDecoder::new();
    decoder.queue_slice(&bytes[..2]);
    assert!(decoder.decode().unwrap().is_none());
    decoder.queue_slice(&bytes[2..]);
    let p = decoder.decode().unwrap().unwrap();
    assert_eq!((p.id, p.data), (1, vec![5, 6]));
}


#[test]
fn decompress_rejects_surplus_bytes() {
    let codec = CompressedPacketCodec::new(6, Some(4));
    let packet = UncompressedPacket::new(1, vec![2; 40]);
    let c = codec.compress(&packet).unwrap();
    assert_eq!(c.uncompressed_len, 41);
    let short_claim = CompressedPacket::new(40, c.data.clone());
    assert_eq!(codec.decompress(short_claim).err(), Some(PacketError::DecompressionFailure));
    let exact = CompressedPacket::new(41, c.data);
    assert_eq!(codec.decompress(exact).unwrap().data, vec![2; 40]);
}
