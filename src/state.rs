//! Connection phases and, for each phase, the closed set of packet ids that a
//! client may send in it. The same number means different packets in
//! different phases.
use vstd::prelude::*;

verus! {

/// The protocol version this server speaks.
pub const CURRENT_MC_PROTOCOL: i32 = 767;

/// The phase a connection is in.
#[derive(Clone, Copy, Debug, PartialEq, Eq, Structural)]
pub enum ConnectionState {
    HandShake,
    Status,
    Login,
    Transfer,
    Config,
    Play,
}

impl ConnectionState {
    /// The phase that the handshake's `next_state` field names: 1 Status,
    /// 2 Login, 3 Transfer.
    pub open spec fn from_next_state_spec(v: i32) -> Option<ConnectionState> {
        if v == 1 {
            Some(ConnectionState::Status)
        } else if v == 2 {
            Some(ConnectionState::Login)
        } else if v == 3 {
            Some(ConnectionState::Transfer)
        } else {
            None
        }
    }

    pub fn from_next_state(v: i32) -> (r: Option<ConnectionState>)
        ensures
            r == ConnectionState::from_next_state_spec(v),
    {
        if v == 1 {
            Some(ConnectionState::Status)
        } else if v == 2 {
            Some(ConnectionState::Login)
        } else if v == 3 {
            Some(ConnectionState::Transfer)
        } else {
            None
        }
    }

    /// Whether the phase has a packet that tells the client why it is
    /// disconnected.
    pub open spec fn has_disconnect_packet_spec(self) -> bool {
        self == ConnectionState::Login || self == ConnectionState::Config || self
            == ConnectionState::Play
    }

    pub fn has_disconnect_packet(&self) -> (r: bool)
        ensures
            r == self.has_disconnect_packet_spec(),
    {
        match self {
            ConnectionState::Login | ConnectionState::Config | ConnectionState::Play => true,
            _ => false,
        }
    }
}

/// The packets a client may send, each legal in one phase (the login packets
/// in Login and in Transfer).
#[derive(Clone, Copy, Debug, PartialEq, Eq, Structural)]
pub enum ServerboundPacket {
    HandShake,
    StatusRequest,
    StatusPingRequest,
    LoginStart,
    EncryptionResponse,
    LoginPluginResponse,
    LoginAcknowledged,
    ClientInformationConfig,
    PluginMessage,
    AcknowledgeFinishConfig,
    KnownPacks,
    ConfirmTeleport,
    ChatCommand,
    ChatMessage,
    ClientInformationPlay,
    CloseContainer,
    Interact,
    KeepAlive,
    Position,
    PositionRotation,
    Rotation,
    PlayerGround,
    PlayPingRequest,
    PlayerAction,
    PlayerCommand,
    SetHeldItem,
    SetCreativeSlot,
    SwingArm,
    UseItemOn,
    UseItem,
}

/// The packet that id `id` names in phase `state`, or `None` where the id is
/// not legal there.
pub open spec fn packet_kind(state: ConnectionState, id: i32) -> Option<ServerboundPacket> {
    match state {
        ConnectionState::HandShake => if id == 0x00 {
            Some(ServerboundPacket::HandShake)
        } else {
            None
        },
        ConnectionState::Status => if id == 0x00 {
            Some(ServerboundPacket::StatusRequest)
        } else if id == 0x01 {
            Some(ServerboundPacket::StatusPingRequest)
        } else {
            None
        },
        ConnectionState::Login | ConnectionState::Transfer => if id == 0x00 {
            Some(ServerboundPacket::LoginStart)
        } else if id == 0x01 {
            Some(ServerboundPacket::EncryptionResponse)
        } else if id == 0x02 {
            Some(ServerboundPacket::LoginPluginResponse)
        } else if id == 0x03 {
            Some(ServerboundPacket::LoginAcknowledged)
        } else {
            None
        },
        ConnectionState::Config => if id == 0x00 {
            Some(ServerboundPacket::ClientInformationConfig)
        } else if id == 0x02 {
            Some(ServerboundPacket::PluginMessage)
        } else if id == 0x03 {
            Some(ServerboundPacket::AcknowledgeFinishConfig)
        } else if id == 0x07 {
            Some(ServerboundPacket::KnownPacks)
        } else {
            None
        },
        ConnectionState::Play => play_packet_kind(id),
    }
}

pub open spec fn play_packet_kind(id: i32) -> Option<ServerboundPacket> {
    if id == 0x00 {
        Some(ServerboundPacket::ConfirmTeleport)
    } else if id == 0x04 {
        Some(ServerboundPacket::ChatCommand)
    } else if id == 0x06 {
        Some(ServerboundPacket::ChatMessage)
    } else if id == 0x0A {
        Some(ServerboundPacket::ClientInformationPlay)
    } else if id == 0x0F {
        Some(ServerboundPacket::CloseContainer)
    } else if id == 0x16 {
        Some(ServerboundPacket::Interact)
    } else if id == 0x18 {
        Some(ServerboundPacket::KeepAlive)
    } else if id == 0x1A {
        Some(ServerboundPacket::Position)
    } else if id == 0x1B {
        Some(ServerboundPacket::PositionRotation)
    } else if id == 0x1C {
        Some(ServerboundPacket::Rotation)
    } else if id == 0x1D {
        Some(ServerboundPacket::PlayerGround)
    } else if id == 0x21 {
        Some(ServerboundPacket::PlayPingRequest)
    } else if id == 0x24 {
        Some(ServerboundPacket::PlayerAction)
    } else if id == 0x25 {
        Some(ServerboundPacket::PlayerCommand)
    } else if id == 0x2F {
        Some(ServerboundPacket::SetHeldItem)
    } else if id == 0x32 {
        Some(ServerboundPacket::SetCreativeSlot)
    } else if id == 0x36 {
        Some(ServerboundPacket::SwingArm)
    } else if id == 0x38 {
        Some(ServerboundPacket::UseItemOn)
    } else if id == 0x39 {
        Some(ServerboundPacket::UseItem)
    } else {
        None
    }
}

/// Looks up the packet that `id` names in phase `state`.
pub fn lookup_packet(state: ConnectionState, id: i32) -> (r: Option<ServerboundPacket>)
    ensures
        r == packet_kind(state, id),
{
    match state {
        ConnectionState::HandShake => if id == 0x00 {
            Some(ServerboundPacket::HandShake)
        } else {
            None
        },
        ConnectionState::Status => if id == 0x00 {
            Some(ServerboundPacket::StatusRequest)
        } else if id == 0x01 {
            Some(ServerboundPacket::StatusPingRequest)
        } else {
            None
        },
        ConnectionState::Login | ConnectionState::Transfer => if id == 0x00 {
            Some(ServerboundPacket::LoginStart)
        } else if id == 0x01 {
            Some(ServerboundPacket::EncryptionResponse)
        } else if id == 0x02 {
            Some(ServerboundPacket::LoginPluginResponse)
        } else if id == 0x03 {
            Some(ServerboundPacket::LoginAcknowledged)
        } else {
            None
        },
        ConnectionState::Config => if id == 0x00 {
            Some(ServerboundPacket::ClientInformationConfig)
        } else if id == 0x02 {
            Some(ServerboundPacket::PluginMessage)
        } else if id == 0x03 {
            Some(ServerboundPacket::AcknowledgeFinishConfig)
        } else if id == 0x07 {
            Some(ServerboundPacket::KnownPacks)
        } else {
            None
        },
        ConnectionState::Play => lookup_play_packet(id),
    }
}

fn lookup_play_packet(id: i32) -> (r: Option<ServerboundPacket>)
    ensures
        r == play_packet_kind(id),
{
    if id == 0x00 {
        Some(ServerboundPacket::ConfirmTeleport)
    } else if id == 0x04 {
        Some(ServerboundPacket::ChatCommand)
    } else if id == 0x06 {
        Some(ServerboundPacket::ChatMessage)
    } else if id == 0x0A {
        Some(ServerboundPacket::ClientInformationPlay)
    } else if id == 0x0F {
        Some(ServerboundPacket::CloseContainer)
    } else if id == 0x16 {
        Some(ServerboundPacket::Interact)
    } else if id == 0x18 {
        Some(ServerboundPacket::KeepAlive)
    } else if id == 0x1A {
        Some(ServerboundPacket::Position)
    } else if id == 0x1B {
        Some(ServerboundPacket::PositionRotation)
    } else if id == 0x1C {
        Some(ServerboundPacket::Rotation)
    } else if id == 0x1D {
        Some(ServerboundPacket::PlayerGround)
    } else if id == 0x21 {
        Some(ServerboundPacket::PlayPingRequest)
    } else if id == 0x24 {
        Some(ServerboundPacket::PlayerAction)
    } else if id == 0x25 {
        Some(ServerboundPacket::PlayerCommand)
    } else if id == 0x2F {
        Some(ServerboundPacket::SetHeldItem)
    } else if id == 0x32 {
        Some(ServerboundPacket::SetCreativeSlot)
    } else if id == 0x36 {
        Some(ServerboundPacket::SwingArm)
    } else if id == 0x38 {
        Some(ServerboundPacket::UseItemOn)
    } else if id == 0x39 {
        Some(ServerboundPacket::UseItem)
    } else {
        None
    }
}

} // verus!
