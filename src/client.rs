//! A connection's session: its phase, its decode and encode pipelines, the
//! packets received and not yet handled, and what the handlers learnt of the
//! client. Handlers change only this session; what must happen outside it
//! (a reply built from server data, a key exchange, spawning a player) is
//! handed back as `ClientAction`s for the server to carry out.
use vstd::prelude::*;
use crate::codec::{FrameState, PacketError, UncompressedPacket, MAX_FRAME_LEN};
use crate::handshake::DeserializerError;
use crate::packets::SEncryptionResponse;
use crate::pipeline::{encoded_frame, PacketDecoder, PacketEncoder};
use crate::state::{ConnectionState, ServerboundPacket, CURRENT_MC_PROTOCOL};

verus! {

/// Length of the shared secret, which keys the connection's cipher.
pub const SHARED_SECRET_LEN: usize = 16;

#[derive(Clone, Copy, Debug, PartialEq, Eq, Structural)]
pub enum ChatMode {
    Enabled,
    CommandsOnly,
    Hidden,
}

impl ChatMode {
    pub open spec fn from_i32_spec(v: i32) -> Option<ChatMode> {
        if v == 0 {
            Some(ChatMode::Enabled)
        } else if v == 1 {
            Some(ChatMode::CommandsOnly)
        } else if v == 2 {
            Some(ChatMode::Hidden)
        } else {
            None
        }
    }

    pub fn from_i32(v: i32) -> (r: Option<ChatMode>)
        ensures
            r == ChatMode::from_i32_spec(v),
    {
        if v == 0 {
            Some(ChatMode::Enabled)
        } else if v == 1 {
            Some(ChatMode::CommandsOnly)
        } else if v == 2 {
            Some(ChatMode::Hidden)
        } else {
            None
        }
    }
}

#[derive(Clone, Copy, Debug, PartialEq, Eq, Structural)]
pub enum Hand {
    Main,
    Off,
}

impl Hand {
    pub open spec fn from_i32_spec(v: i32) -> Option<Hand> {
        if v == 0 {
            Some(Hand::Main)
        } else if v == 1 {
            Some(Hand::Off)
        } else {
            None
        }
    }

    pub fn from_i32(v: i32) -> (r: Option<Hand>)
        ensures
            r == Hand::from_i32_spec(v),
    {
        if v == 0 {
            Some(Hand::Main)
        } else if v == 1 {
            Some(Hand::Off)
        } else {
            None
        }
    }
}

/// A player's settings, as its client reports them.
pub struct PlayerConfig {
    /// The player's preferred language.
    pub locale: String,
    /// The distance up to which chunks are rendered.
    pub view_distance: i8,
    pub chat_mode: ChatMode,
    pub chat_colors: bool,
    /// Which parts of the skin are shown.
    pub skin_parts: u8,
    pub main_hand: Hand,
    pub text_filtering: bool,
    /// Whether the player may be listed in the server list.
    pub server_listing: bool,
}

impl Default for PlayerConfig {
    fn default() -> (r: PlayerConfig)
        ensures
            r.locale@ == "en_us"@,
            r.view_distance == 2,
            r.chat_mode == ChatMode::Enabled,
            r.chat_colors,
            r.skin_parts == 0,
            r.main_hand == Hand::Main,
            !r.text_filtering,
            !r.server_listing,
    {
        PlayerConfig {
            locale: String::from_str("en_us"),
            view_distance: 2,
            chat_mode: ChatMode::Enabled,
            chat_colors: true,
            skin_parts: 0,
            main_hand: Hand::Main,
            text_filtering: false,
            server_listing: false,
        }
    }
}

/// Who the client is: the UUID's 16 bytes and the name.
pub struct GameProfile {
    pub id: Vec<u8>,
    pub name: String,
}

#[derive(Clone, Copy, Debug, PartialEq, Eq, Structural)]
pub enum EncryptionError {
    /// The shared secret could not be decrypted with the server's key.
    FailedDecrypt,
    /// The shared secret is not 16 bytes long.
    SharedWrongLength,
    /// Encryption is on already; it is never re-keyed.
    AlreadyEnabled,
}

/// Why a client is disconnected.
#[derive(Clone, Copy, Debug, PartialEq, Eq, Structural)]
pub enum DisconnectReason {
    /// The client speaks an older protocol, the one given.
    ClientOutdated(i32),
    /// The client speaks a newer protocol.
    ServerOutdated,
    InvalidUsername,
    /// The client's brand is not UTF-8.
    InvalidBrand,
    /// Login finished without a game profile.
    MissingProfile,
    Deserialize(DeserializerError),
    Transport(PacketError),
    Encryption(EncryptionError),
}

/// What the server has to do for a session after it handled a packet.
pub enum ClientAction {
    /// Send the status response.
    SendStatus,
    /// Answer a status ping with its payload; the session is closed after.
    SendPong(i64),
    /// Login start accepted: send the encryption request.
    RequestEncryption,
    /// Decrypt the shared secret with the server's key and finish the login
    /// with `Client::complete_login`.
    DecryptSharedSecret(SEncryptionResponse),
    /// Tell the client the compression threshold (sent before compression starts).
    SetCompression(u32),
    /// Send the login success packet for this profile.
    LoginSuccess,
    /// Login acknowledged: configuration starts with `Server::send_configuration`
    /// (brand, resource pack when offered, known packs, in that order).
    SendConfiguration,
    /// Known packs received: send the registries and finish configuration.
    SendRegistries,
    /// Configuration done: turn the client into a player.
    SpawnPlayer,
    /// A packet of the Play phase for the player handlers.
    Play(ServerboundPacket, UncompressedPacket),
    /// Send the phase's disconnect packet with this reason; the session is closed.
    Disconnect(DisconnectReason),
}

/// Whether a name may be a player's name: at most 16 characters, each
/// printable ASCII other than space.
pub open spec fn valid_player_name(name: Seq<char>) -> bool {
    name.len() <= 16 && forall|i: int| 0 <= i < name.len() ==> ' ' < #[trigger] name[i] < '\x7f'
}

pub fn is_valid_player_name(name: &str) -> (r: bool)
    ensures
        r == valid_player_name(name@),
{
    let n = name.unicode_len();
    let mut i: usize = 0;
    while i < n
        invariant
            n == name@.len(),
            i <= n,
            forall|j: int| 0 <= j < i ==> ' ' < #[trigger] name@[j] < '\x7f',
        decreases n - i,
    {
        let c = name.get_char(i);
        if !(' ' < c && c < '\x7f') {
            return false;
        }
        i = i + 1;
    }
    n <= 16
}

/// Whether `s` starts with `prefix`.
pub fn starts_with(s: &str, prefix: &str) -> (r: bool)
    ensures
        r == (prefix@.len() <= s@.len() && s@.take(prefix@.len() as int) == prefix@),
{
    let n = prefix.unicode_len();
    if n > s.unicode_len() {
        return false;
    }
    let mut i: usize = 0;
    while i < n
        invariant
            n == prefix@.len(),
            n <= s@.len(),
            i <= n,
            forall|j: int| 0 <= j < i ==> s@[j] == prefix@[j],
        decreases n - i,
    {
        if s.get_char(i) != prefix.get_char(i) {
            assert(s@.take(n as int)[i as int] != prefix@[i as int]);
            return false;
        }
        i = i + 1;
    }
    assert(s@.take(n as int) =~= prefix@);
    true
}

/// A connection's session.
pub struct Client {
    /// The key of this connection in the server's set of live connections.
    pub token: u32,
    /// The protocol version the client declared in its handshake.
    pub protocol_version: i32,
    pub connection_state: ConnectionState,
    /// Whether the stream is encrypted; once on, it stays on.
    pub encryption: bool,
    /// Whether the connection is to be closed.
    pub closed: bool,
    pub gameprofile: Option<GameProfile>,
    /// The entity id of the player, once the session plays.
    pub entity_id: Option<i32>,
    pub config: Option<PlayerConfig>,
    pub brand: Option<String>,
    /// Packets received and not yet handled, oldest first.
    pub client_packets_queue: Vec<UncompressedPacket>,
    pub dec: PacketDecoder,
    pub enc: PacketEncoder,
}

/// The actions a handshake leads to: a disconnect when the client asks to
/// log in with another protocol version than the server's.
pub open spec fn handshake_outcome(version: i32, next: ConnectionState) -> Option<DisconnectReason> {
    if next == ConnectionState::Login && version < CURRENT_MC_PROTOCOL {
        Some(DisconnectReason::ClientOutdated(version))
    } else if next == ConnectionState::Login && version > CURRENT_MC_PROTOCOL {
        Some(DisconnectReason::ServerOutdated)
    } else {
        None
    }
}

/// The bodies of `packets`, in order.
pub open spec fn bodies(packets: Seq<UncompressedPacket>) -> Seq<Seq<u8>> {
    packets.map_values(|p: UncompressedPacket| p.body())
}

/// The frames that carry `bodies`, one after another.
pub open spec fn frames_of(compression: Option<(u32, u32)>, bodies: Seq<Seq<u8>>) -> Seq<u8>
    decreases bodies.len(),
{
    if bodies.len() == 0 {
        Seq::empty()
    } else {
        frames_of(compression, bodies.drop_last()) + encoded_frame(compression, bodies.last())
    }
}

/// Whether every body goes out without failing under `compression`: each
/// fits a frame and stays below the threshold.
pub open spec fn all_fit(compression: Option<(u32, u32)>, bodies: Seq<Seq<u8>>) -> bool {
    forall|i: int|
        0 <= i < bodies.len() ==> #[trigger] bodies[i].len() < MAX_FRAME_LEN && (
        compression matches Some((t, _)) ==> bodies[i].len() < t)
}

/// What kicking a session in phase `state` hands back: the phase's
/// disconnect packet with the reason, where it has one.
pub open spec fn disconnect_actions(state: ConnectionState, reason: DisconnectReason) -> Seq<ClientAction> {
    if state.has_disconnect_packet_spec() {
        seq![ClientAction::Disconnect(reason)]
    } else {
        Seq::empty()
    }
}

impl Client {
    pub open spec fn wf(&self) -> bool {
        self.enc.wf()
    }

    /// A new session, in HandShake, with neither encryption nor compression.
    pub fn new(token: u32) -> (r: Client)
        ensures
            r.wf(),
            r.token == token,
            r.protocol_version == 0,
            r.connection_state == ConnectionState::HandShake,
            !r.encryption,
            !r.closed,
            r.gameprofile is None,
            r.entity_id is None,
            r.config is None,
            r.brand is None,
            r.client_packets_queue@.len() == 0,
            r.dec.buf@.len() == 0,
            r.dec.framer.state == FrameState::AwaitingLength,
            !r.dec.compression,
            r.enc.buf@.len() == 0,
            r.enc.compression is None,
    {
        Client {
            token,
            protocol_version: 0,
            connection_state: ConnectionState::HandShake,
            encryption: false,
            closed: false,
            gameprofile: None,
            entity_id: None,
            config: None,
            brand: None,
            client_packets_queue: Vec::new(),
            dec: PacketDecoder::new(),
            enc: PacketEncoder::new(),
        }
    }

    /// Whether the session has become a player's.
    pub fn is_player(&self) -> (r: bool)
        ensures
            r == (self.connection_state == ConnectionState::Play),
    {
        self.connection_state == ConnectionState::Play
    }

    /// Queues a received packet behind those already waiting.
    pub fn add_packet(&mut self, packet: UncompressedPacket)
        ensures
            final(self).client_packets_queue@ == old(self).client_packets_queue@.push(packet),
            final(self).connection_state == old(self).connection_state,
            final(self).closed == old(self).closed,
            final(self).enc == old(self).enc,
            final(self).dec == old(self).dec,
            final(self).token == old(self).token,
    {
        self.client_packets_queue.push(packet);
    }

    /// Turns encryption on with the decrypted shared secret, which must be
    /// 16 bytes long. Encryption is turned on at most once. The caller keys
    /// the stream cipher with the same secret when this succeeds.
    pub fn enable_encryption(&mut self, shared_secret: &[u8]) -> (r: Result<(), EncryptionError>)
        ensures
            shared_secret@.len() != SHARED_SECRET_LEN ==> r == Err::<(), EncryptionError>(
                EncryptionError::SharedWrongLength,
            ),
            shared_secret@.len() == SHARED_SECRET_LEN && old(self).encryption ==> r == Err::<
                (),
                EncryptionError,
            >(EncryptionError::AlreadyEnabled),
            shared_secret@.len() == SHARED_SECRET_LEN && !old(self).encryption ==> r is Ok,
            final(self).encryption == (old(self).encryption || r is Ok),
            final(self).connection_state == old(self).connection_state,
            final(self).closed == old(self).closed,
            final(self).enc == old(self).enc,
            final(self).dec == old(self).dec,
            final(self).token == old(self).token,
            final(self).gameprofile == old(self).gameprofile,
            final(self).client_packets_queue == old(self).client_packets_queue,
    {
        if shared_secret.len() != SHARED_SECRET_LEN {
            return Err(EncryptionError::SharedWrongLength);
        }
        if self.encryption {
            return Err(EncryptionError::AlreadyEnabled);
        }
        self.encryption = true;
        Ok(())
    }

    /// Sets the compression of both pipelines: threshold and level, or off.
    pub fn set_compression(&mut self, compression: Option<(u32, u32)>)
        requires
            compression matches Some((_, level)) ==> level <= 9,
        ensures
            final(self).wf(),
            final(self).enc.compression == compression,
            final(self).dec.compression == compression is Some,
            final(self).enc.buf == old(self).enc.buf,
            final(self).dec.buf == old(self).dec.buf,
            final(self).dec.framer == old(self).dec.framer,
            final(self).connection_state == old(self).connection_state,
            final(self).closed == old(self).closed,
            final(self).encryption == old(self).encryption,
            final(self).token == old(self).token,
            final(self).gameprofile == old(self).gameprofile,
    {
        let threshold = match compression {
            Some((t, _)) => Some(t),
            None => None,
        };
        self.dec.set_compression(threshold);
        self.enc.set_compression(compression);
    }

    /// Queues `packet` for sending; the caller reads the bytes with
    /// `take_outgoing`, encrypts them when encryption is on and writes them.
    pub fn try_send_packet(&mut self, packet: &UncompressedPacket) -> (r: Result<(), PacketError>)
        requires
            old(self).wf(),
        ensures
            final(self).wf(),
            r is Ok ==> final(self).enc.buf@ == old(self).enc.buf@ + encoded_frame(
                old(self).enc.compression,
                packet.body(),
            ),
            r is Err ==> final(self).enc.buf@ == old(self).enc.buf@,
            packet.body().len() < MAX_FRAME_LEN && (old(self).enc.compression matches Some((t, _))
                ==> packet.body().len() < t) ==> r is Ok,
            final(self).enc.compression == old(self).enc.compression,
            final(self).connection_state == old(self).connection_state,
            final(self).closed == old(self).closed,
            final(self).dec == old(self).dec,
            final(self).token == old(self).token,
            final(self).entity_id == old(self).entity_id,
            final(self).client_packets_queue == old(self).client_packets_queue,
    {
        self.enc.append_packet(packet)
    }

    /// Queues `packet` for sending; a failure closes the session, with a
    /// disconnect where the phase has one.
    pub fn send_packet(&mut self, packet: &UncompressedPacket) -> (r: Vec<ClientAction>)
        requires
            old(self).wf(),
        ensures
            *final(self) == (Client { enc: final(self).enc, closed: final(self).closed, ..*old(self) }),
            final(self).wf(),
            final(self).connection_state == old(self).connection_state,
            final(self).enc.compression == old(self).enc.compression,
            final(self).dec == old(self).dec,
            final(self).token == old(self).token,
            final(self).entity_id == old(self).entity_id,
            (final(self).enc.buf@ == old(self).enc.buf@ + encoded_frame(
                old(self).enc.compression,
                packet.body(),
            ) && r@.len() == 0 && final(self).closed == old(self).closed) || (final(self).enc.buf@
                == old(self).enc.buf@ && final(self).closed && exists|e: PacketError|
                r@ == disconnect_actions(
                    old(self).connection_state,
                    DisconnectReason::Transport(e),
                )),
            packet.body().len() < MAX_FRAME_LEN && (old(self).enc.compression matches Some((t, _))
                ==> packet.body().len() < t) ==> r@.len() == 0 && final(self).closed == old(self).closed
                && final(self).enc.buf@ == old(self).enc.buf@ + encoded_frame(
                old(self).enc.compression,
                packet.body(),
            ),
    {
        match self.enc.append_packet(packet) {
            Ok(()) => Vec::new(),
            Err(e) => self.kick(DisconnectReason::Transport(e)),
        }
    }

    /// Queues `packets` for sending, in order. A packet that fails to encode
    /// closes the session, as `send_packet` does.
    pub fn send_all(&mut self, packets: &Vec<UncompressedPacket>) -> (r: Vec<ClientAction>)
        requires
            old(self).wf(),
        ensures
            final(self).wf(),
            *final(self) == (Client { enc: final(self).enc, closed: final(self).closed, ..*old(self) }),
            final(self).enc.compression == old(self).enc.compression,
            (final(self).enc.buf@ == old(self).enc.buf@ + frames_of(old(self).enc.compression, bodies(packets@))
                && final(self).closed == old(self).closed && r@.len() == 0) || final(self).closed,
            all_fit(old(self).enc.compression, bodies(packets@)) ==> final(self).enc.buf@ == old(
                self,
            ).enc.buf@ + frames_of(old(self).enc.compression, bodies(packets@)) && final(self).closed
                == old(self).closed && r@.len() == 0,
    {
        let ghost comp = self.enc.compression;
        let ghost start = self.enc.buf@;
        let ghost all = bodies(packets@);
        let mut actions: Vec<ClientAction> = Vec::new();
        let mut i: usize = 0;
        assert(all.take(0) =~= Seq::<Seq<u8>>::empty());
        while i < packets.len()
            invariant
                i <= packets@.len(),
                all == bodies(packets@),
                self.wf(),
                *self == (Client { enc: self.enc, closed: self.closed, ..*old(self) }),
                self.enc.compression == comp,
                comp == old(self).enc.compression,
                start == old(self).enc.buf@,
                (self.enc.buf@ == start + frames_of(comp, all.take(i as int)) && self.closed
                    == old(self).closed && actions@.len() == 0) || self.closed,
                all_fit(comp, all) ==> self.enc.buf@ == start + frames_of(comp, all.take(i as int))
                    && self.closed == old(self).closed && actions@.len() == 0,
            decreases packets@.len() - i,
        {
            let ghost before = self.enc.buf@;
            let mut sent = self.send_packet(&packets[i]);
            assert(all[i as int] == packets@[i as int].body());
            assert(all.take(i + 1).drop_last() =~= all.take(i as int));
            actions.append(&mut sent);
            i = i + 1;
        }
        assert(all.take(i as int) =~= all);
        actions
    }

    /// The bytes waiting to be written to the socket.
    pub fn take_outgoing(&mut self) -> (r: Vec<u8>)
        ensures
            r@ == old(self).enc.buf@,
            final(self).enc.buf@.len() == 0,
            final(self).enc.compression == old(self).enc.compression,
            final(self).connection_state == old(self).connection_state,
            final(self).closed == old(self).closed,
            final(self).dec == old(self).dec,
            final(self).token == old(self).token,
            final(self).entity_id == old(self).entity_id,
            final(self).client_packets_queue == old(self).client_packets_queue,
    {
        self.enc.take()
    }

    /// Closes the session, telling the client why where its phase has a
    /// disconnect packet (Login, Config, Play).
    pub fn kick(&mut self, reason: DisconnectReason) -> (r: Vec<ClientAction>)
        ensures
            *final(self) == (Client { closed: true, ..*old(self) }),
            r@ == disconnect_actions(old(self).connection_state, reason),
    {
        let mut actions: Vec<ClientAction> = Vec::new();
        if self.connection_state.has_disconnect_packet() {
            actions.push(ClientAction::Disconnect(reason));
        }
        self.closed = true;
        assert(actions@ =~= disconnect_actions(self.connection_state, reason));
        actions
    }

    /// Marks the session closed; prefer `kick` where the client should learn why.
    pub fn close(&mut self)
        ensures
            *final(self) == (Client { closed: true, ..*old(self) }),
    {
        self.closed = true;
    }
}

} // verus!
