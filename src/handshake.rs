//! The one packet of the HandShake phase: the client's protocol version, the
//! address and port it dialled, and the phase it asks for next.
use vstd::prelude::*;
use crate::bytebuf::{read_be, read_string, read_varint, spec_be, spec_string, spec_varint};
use crate::codec::UncompressedPacket;
use crate::state::ConnectionState;

verus! {

/// Why a packet's fields could not be read.
#[derive(Clone, Copy, Debug, PartialEq, Eq, Structural)]
pub enum DeserializerError {
    /// The packet does not carry the id that was expected.
    WrongPacketId,
    /// The bytes do not hold the packet's fields.
    Malformed,
}

/// The most characters of the server address in a handshake.
pub const MAX_ADDRESS_LEN: usize = 255;

/// The id of the handshake packet.
pub const HANDSHAKE_PACKET_ID: i32 = 0x00;

#[derive(Debug)]
pub struct SHandShake {
    pub protocol_version: i32,
    pub server_address: String,
    pub server_port: u16,
    pub next_state: ConnectionState,
}

/// What a handshake's fields read as: version, address, port, next phase.
pub open spec fn handshake_fields(b: Seq<u8>) -> Option<(i32, Seq<char>, u16, ConnectionState)> {
    match spec_varint(b, 0) {
        Some((version, pos1)) => match spec_string(b, pos1, MAX_ADDRESS_LEN as nat) {
            Some((address, pos2)) => match spec_be(b, pos2, 2) {
                Some((port, pos3)) => match spec_varint(b, pos3) {
                    Some((next, _)) => match ConnectionState::from_next_state_spec(next) {
                        Some(state) => Some((version, address, port as u16, state)),
                        None => None,
                    },
                    None => None,
                },
                None => None,
            },
            None => None,
        },
        None => None,
    }
}

impl SHandShake {
    /// Reads a handshake from a packet's field bytes.
    pub fn read(b: &[u8]) -> (r: Result<SHandShake, DeserializerError>)
        ensures
            r is Ok <==> handshake_fields(b@) is Some,
            r matches Ok(h) ==> handshake_fields(b@) == Some(
                (h.protocol_version, h.server_address@, h.server_port, h.next_state),
            ),
            r is Err ==> r == Err::<SHandShake, DeserializerError>(DeserializerError::Malformed),
    {
        let (protocol_version, pos1) = match read_varint(b, 0) {
            Some(x) => x,
            None => return Err(DeserializerError::Malformed),
        };
        let (server_address, pos2) = match read_string(b, pos1, MAX_ADDRESS_LEN) {
            Some(x) => x,
            None => return Err(DeserializerError::Malformed),
        };
        let (port, pos3) = match read_be(b, pos2, 2) {
            Some(x) => x,
            None => return Err(DeserializerError::Malformed),
        };
        let (next, _p4) = match read_varint(b, pos3) {
            Some(x) => x,
            None => return Err(DeserializerError::Malformed),
        };
        let next_state = match ConnectionState::from_next_state(next) {
            Some(s) => s,
            None => return Err(DeserializerError::Malformed),
        };
        Ok(SHandShake { protocol_version, server_address, server_port: port as u16, next_state })
    }
}

/// The packets of the HandShake phase.
#[non_exhaustive]
pub enum SHandShakeMessage {
    SHandShake(SHandShake),
}

/// Reads the packet of the HandShake phase that `packet` carries.
pub fn decode(packet: UncompressedPacket) -> (r: Result<SHandShakeMessage, DeserializerError>)
    ensures
        packet.id != HANDSHAKE_PACKET_ID ==> r == Err::<SHandShakeMessage, DeserializerError>(
            DeserializerError::WrongPacketId,
        ),
        packet.id == HANDSHAKE_PACKET_ID ==> (r is Ok <==> handshake_fields(packet.data@) is Some),
        r matches Ok(SHandShakeMessage::SHandShake(h)) ==> handshake_fields(packet.data@) == Some(
            (h.protocol_version, h.server_address@, h.server_port, h.next_state),
        ),
        packet.id == HANDSHAKE_PACKET_ID && r is Err ==> r == Err::<
            SHandShakeMessage,
            DeserializerError,
        >(DeserializerError::Malformed),
{
    if packet.id != HANDSHAKE_PACKET_ID {
        return Err(DeserializerError::WrongPacketId);
    }
    match SHandShake::read(packet.data.as_slice()) {
        Ok(h) => Ok(SHandShakeMessage::SHandShake(h)),
        Err(e) => Err(e),
    }
}

} // verus!
