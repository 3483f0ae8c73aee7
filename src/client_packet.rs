//! The handlers of the packets a client sends before it plays, and the
//! dispatch that routes each received packet by phase and id.
use vstd::prelude::*;
use crate::client::{
    disconnect_actions, handshake_outcome, starts_with, valid_player_name, ChatMode, Client,
    ClientAction, DisconnectReason, EncryptionError, GameProfile, Hand, PlayerConfig,
    SHARED_SECRET_LEN,
};
use crate::codec::{frame_step, FrameResult, FrameState, PacketError, UncompressedPacket};
use crate::pipeline::frame_packet;
use crate::handshake::{handshake_fields, DeserializerError, SHandShake};
use crate::packets::{
    client_information_fields, encryption_response_fields, known_packs_fields,
    login_plugin_response_fields, login_start_fields, plugin_message_fields, ClientInformationFields,
    SKnownPacks, SLoginPluginResponse,
    SClientInformationConfig, SEncryptionResponse, SLoginStart, SPluginMessage, SStatusPingRequest,
};
use crate::bytebuf::spec_be;
use vstd::utf8::{decode_utf8, valid_utf8};
use crate::state::{lookup_packet, packet_kind, ConnectionState, ServerboundPacket};

verus! {

/// What a handshake hands back: the disconnect, where there is one.
pub open spec fn handshake_actions(version: i32, next: ConnectionState) -> Seq<ClientAction> {
    match handshake_outcome(version, next) {
        Some(reason) => seq![ClientAction::Disconnect(reason)],
        None => Seq::empty(),
    }
}

impl Client {
    /// Records the client's protocol version and moves to the phase it asks
    /// for. A client that asks to log in with another protocol version than
    /// the server's is told which side is outdated and disconnected.
    pub fn handle_handshake(&mut self, handshake: SHandShake) -> (r: Vec<ClientAction>)
        requires
            handshake.next_state == ConnectionState::Status || handshake.next_state
                == ConnectionState::Login || handshake.next_state == ConnectionState::Transfer,
        ensures
            *final(self) == (Client {
                protocol_version: handshake.protocol_version,
                connection_state: handshake.next_state,
                closed: old(self).closed || handshake_outcome(
                    handshake.protocol_version,
                    handshake.next_state,
                ) is Some,
                ..*old(self)
            }),
            r@ == handshake_actions(handshake.protocol_version, handshake.next_state),
    {
        self.protocol_version = handshake.protocol_version;
        self.connection_state = handshake.next_state;
        if self.connection_state == ConnectionState::Login {
            let protocol = self.protocol_version;
            if protocol < crate::state::CURRENT_MC_PROTOCOL {
                return self.kick(DisconnectReason::ClientOutdated(protocol));
            } else if protocol > crate::state::CURRENT_MC_PROTOCOL {
                return self.kick(DisconnectReason::ServerOutdated);
            }
        }
        let r: Vec<ClientAction> = Vec::new();
        assert(r@ =~= handshake_actions(handshake.protocol_version, handshake.next_state));
        r
    }

    pub fn handle_status_request(&mut self) -> (r: Vec<ClientAction>)
        ensures
            r@ == seq![ClientAction::SendStatus],
            *final(self) == *old(self),
    {
        let mut r: Vec<ClientAction> = Vec::new();
        r.push(ClientAction::SendStatus);
        r
    }

    /// Answers the ping and closes the session: a status exchange ends here.
    pub fn handle_ping_request(&mut self, ping_request: SStatusPingRequest) -> (r: Vec<ClientAction>)
        ensures
            r@ == seq![ClientAction::SendPong(ping_request.payload)],
            *final(self) == (Client { closed: true, ..*old(self) }),
    {
        let mut r: Vec<ClientAction> = Vec::new();
        r.push(ClientAction::SendPong(ping_request.payload));
        self.close();
        r
    }

    /// Takes the player's name and UUID, or disconnects a name that is not a
    /// valid player name.
    pub fn handle_login_start(&mut self, login_start: SLoginStart) -> (r: Vec<ClientAction>)
        ensures
            !valid_player_name(login_start.name@) ==> r@ == disconnect_actions(
                old(self).connection_state,
                DisconnectReason::InvalidUsername,
            ) && *final(self) == (Client { closed: true, ..*old(self) }),
            valid_player_name(login_start.name@) ==> r@ == seq![ClientAction::RequestEncryption]
                && *final(self) == (Client { gameprofile: final(self).gameprofile, ..*old(self) })
                && final(self).gameprofile is Some && final(self).gameprofile->0.name@
                == login_start.name@ && final(self).gameprofile->0.id@ == login_start.uuid@,
    {
        if !crate::client::is_valid_player_name(login_start.name.as_str()) {
            return self.kick(DisconnectReason::InvalidUsername);
        }
        self.gameprofile = Some(GameProfile { id: login_start.uuid, name: login_start.name });
        let mut r: Vec<ClientAction> = Vec::new();
        r.push(ClientAction::RequestEncryption);
        r
    }

    /// The shared secret arrives encrypted with the server's key: the server
    /// decrypts it and calls `complete_login`.
    pub fn handle_encryption_response(&mut self, encryption_response: SEncryptionResponse) -> (r: Vec<ClientAction>)
        ensures
            r@ == seq![ClientAction::DecryptSharedSecret(encryption_response)],
            *final(self) == *old(self),
    {
        let mut r: Vec<ClientAction> = Vec::new();
        r.push(ClientAction::DecryptSharedSecret(encryption_response));
        r
    }

    /// Finishes the login once the shared secret is decrypted (or could not
    /// be): turns encryption on, then asks for compression to be announced and
    /// turned on when it is configured, then for the login success packet.
    /// Any failure disconnects instead.
    pub fn complete_login(
        &mut self,
        shared_secret: Result<Vec<u8>, EncryptionError>,
        compression: Option<(u32, u32)>,
    ) -> (r: Vec<ClientAction>)
        ensures
            shared_secret matches Err(e) ==> r@ == disconnect_actions(
                old(self).connection_state,
                DisconnectReason::Encryption(e),
            ) && final(self).closed && final(self).encryption == old(self).encryption,
            shared_secret matches Ok(s) && s@.len() != SHARED_SECRET_LEN ==> r@ == disconnect_actions(
                old(self).connection_state,
                DisconnectReason::Encryption(EncryptionError::SharedWrongLength),
            ) && final(self).closed && final(self).encryption == old(self).encryption,
            shared_secret matches Ok(s) && s@.len() == SHARED_SECRET_LEN && old(self).encryption
                ==> r@ == disconnect_actions(
                old(self).connection_state,
                DisconnectReason::Encryption(EncryptionError::AlreadyEnabled),
            ) && final(self).closed,
            shared_secret matches Ok(s) && !old(self).encryption && s@.len() == SHARED_SECRET_LEN
                ==> final(self).encryption && (old(self).gameprofile is None ==> r@
                == disconnect_actions(old(self).connection_state, DisconnectReason::MissingProfile)
                && final(self).closed) && (old(self).gameprofile is Some ==> final(self).closed
                == old(self).closed && r@ == login_actions(compression)),
            final(self).connection_state == old(self).connection_state,
            final(self).enc == old(self).enc,
            final(self).dec == old(self).dec,
            final(self).token == old(self).token,
            final(self).client_packets_queue == old(self).client_packets_queue,
    {
        let secret = match shared_secret {
            Ok(s) => s,
            Err(e) => return self.kick(DisconnectReason::Encryption(e)),
        };
        match self.enable_encryption(secret.as_slice()) {
            Ok(()) => {},
            Err(e) => return self.kick(DisconnectReason::Encryption(e)),
        }
        if self.gameprofile.is_none() {
            return self.kick(DisconnectReason::MissingProfile);
        }
        let mut r: Vec<ClientAction> = Vec::new();
        if let Some((threshold, _)) = compression {
            r.push(ClientAction::SetCompression(threshold));
        }
        r.push(ClientAction::LoginSuccess);
        assert(r@ =~= login_actions(compression));
        r
    }

    pub fn handle_plugin_response(&mut self, _plugin_response: SLoginPluginResponse) -> (r: Vec<ClientAction>)
        ensures
            r@.len() == 0,
            *final(self) == *old(self),
    {
        Vec::new()
    }

    /// The client acknowledged the login: configuration starts, and the
    /// server is asked to send what `Server::send_configuration` sends.
    pub fn handle_login_acknowledged(&mut self) -> (r: Vec<ClientAction>)
        ensures
            *final(self) == (Client { connection_state: ConnectionState::Config, ..*old(self) }),
            r@ == seq![ClientAction::SendConfiguration],
    {
        self.connection_state = ConnectionState::Config;
        let mut r: Vec<ClientAction> = Vec::new();
        r.push(ClientAction::SendConfiguration);
        r
    }

    /// Keeps the client's settings; a chat mode or hand outside the known
    /// values is a malformed packet.
    pub fn handle_client_information_config(
        &mut self,
        client_information: SClientInformationConfig,
    ) -> (r: Result<Vec<ClientAction>, DeserializerError>)
        ensures
            r is Ok <==> (ChatMode::from_i32_spec(client_information.chat_mode) is Some
                && Hand::from_i32_spec(client_information.main_hand) is Some),
            r is Ok ==> r->Ok_0@.len() == 0 && *final(self) == (Client {
                config: final(self).config,
                ..*old(self)
            }) && config_matches(final(self).config, client_information.fields()),
            r is Err ==> r == Err::<Vec<ClientAction>, DeserializerError>(
                DeserializerError::Malformed,
            ) && *final(self) == *old(self),
    {
        let chat_mode = match ChatMode::from_i32(client_information.chat_mode) {
            Some(m) => m,
            None => return Err(DeserializerError::Malformed),
        };
        let main_hand = match Hand::from_i32(client_information.main_hand) {
            Some(h) => h,
            None => return Err(DeserializerError::Malformed),
        };
        self.config = Some(PlayerConfig {
            locale: client_information.locale,
            view_distance: client_information.view_distance,
            chat_mode,
            chat_colors: client_information.chat_colors,
            skin_parts: client_information.skin_parts,
            main_hand,
            text_filtering: client_information.text_filtering,
            server_listing: client_information.server_listing,
        });
        Ok(Vec::new())
    }

    /// Keeps the client's brand, sent on the brand channel.
    pub fn handle_plugin_message(&mut self, plugin_message: SPluginMessage) -> (r: Vec<ClientAction>)
        ensures
            !is_brand_channel(plugin_message.channel@) ==> r@.len() == 0 && *final(self)
                == *old(self),
            is_brand_channel(plugin_message.channel@) && !valid_utf8(plugin_message.data@) ==> r@
                == disconnect_actions(old(self).connection_state, DisconnectReason::InvalidBrand)
                && *final(self) == (Client { closed: true, ..*old(self) }),
            is_brand_channel(plugin_message.channel@) && valid_utf8(plugin_message.data@) ==> r@.len()
                == 0 && *final(self) == (Client { brand: final(self).brand, ..*old(self) })
                && final(self).brand is Some && final(self).brand->0@ == decode_utf8(
                plugin_message.data@,
            ),
    {
        let brand_channel = starts_with(plugin_message.channel.as_str(), "minecraft:brand")
            || starts_with(plugin_message.channel.as_str(), "MC|Brand");
        if !brand_channel {
            return Vec::new();
        }
        match crate::bytebuf::string_from_utf8(plugin_message.data) {
            Some(brand) => {
                self.brand = Some(brand);
                Vec::new()
            },
            None => self.kick(DisconnectReason::InvalidBrand),
        }
    }

    /// The client named its known packs: the registries follow.
    pub fn handle_known_packs(&mut self, _known_packs: SKnownPacks) -> (r: Vec<ClientAction>)
        ensures
            r@ == seq![ClientAction::SendRegistries],
            *final(self) == *old(self),
    {
        let mut r: Vec<ClientAction> = Vec::new();
        r.push(ClientAction::SendRegistries);
        r
    }

    /// Configuration is over: the client plays from now on.
    pub fn handle_config_acknowledged(&mut self) -> (r: Vec<ClientAction>)
        ensures
            *final(self) == (Client { connection_state: ConnectionState::Play, ..*old(self) }),
            r@ == seq![ClientAction::SpawnPlayer],
    {
        self.connection_state = ConnectionState::Play;
        let mut r: Vec<ClientAction> = Vec::new();
        r.push(ClientAction::SpawnPlayer);
        r
    }
}

impl Client {
    /// Routes a received packet to its handler by the session's phase and the
    /// packet's id. An id that the phase does not accept is ignored: nothing
    /// changes and nothing is handed back. A packet whose fields cannot be read
    /// is an error, which the caller turns into a kick.
    pub fn handle_packet(&mut self, packet: UncompressedPacket) -> (r: Result<Vec<ClientAction>, DeserializerError>)
        ensures
            handled(*old(self), *final(self), packet, r),
    {
        let ghost pre = *self;
        let ghost pk = packet;
        let kind = match lookup_packet(self.connection_state, packet.id) {
            Some(k) => k,
            None => {
                let r: Vec<ClientAction> = Vec::new();
                assert(r@ =~= Seq::<ClientAction>::empty());
                return Ok(r);
            },
        };
        let data = packet.data.as_slice();
        let r = match kind {
            ServerboundPacket::HandShake => match SHandShake::read(data) {
                Ok(h) => Ok(self.handle_handshake(h)),
                Err(e) => Err(e),
            },
            ServerboundPacket::StatusRequest => Ok(self.handle_status_request()),
            ServerboundPacket::StatusPingRequest => match SStatusPingRequest::read(data) {
                Ok(p) => Ok(self.handle_ping_request(p)),
                Err(e) => Err(e),
            },
            ServerboundPacket::LoginStart => match SLoginStart::read(data) {
                Ok(p) => Ok(self.handle_login_start(p)),
                Err(e) => Err(e),
            },
            ServerboundPacket::EncryptionResponse => match SEncryptionResponse::read(data) {
                Ok(p) => Ok(self.handle_encryption_response(p)),
                Err(e) => Err(e),
            },
            ServerboundPacket::LoginPluginResponse => match SLoginPluginResponse::read(data) {
                Ok(p) => {
                    let a = self.handle_plugin_response(p);
                    assert(a@ =~= Seq::<ClientAction>::empty());
                    Ok(a)
                },
                Err(e) => Err(e),
            },
            ServerboundPacket::LoginAcknowledged => Ok(self.handle_login_acknowledged()),
            ServerboundPacket::ClientInformationConfig => match SClientInformationConfig::read(data) {
                Ok(p) => {
                    let a = self.handle_client_information_config(p);
                    proof {
                        if a is Ok {
                            assert(a->Ok_0@ =~= Seq::<ClientAction>::empty());
                        }
                    }
                    a
                },
                Err(e) => Err(e),
            },
            ServerboundPacket::PluginMessage => match SPluginMessage::read(data) {
                Ok(p) => {
                    let a = self.handle_plugin_message(p);
                    proof {
                        if a@.len() == 0 {
                            assert(a@ =~= Seq::<ClientAction>::empty());
                        }
                    }
                    Ok(a)
                },
                Err(e) => Err(e),
            },
            ServerboundPacket::AcknowledgeFinishConfig => Ok(self.handle_config_acknowledged()),
            ServerboundPacket::KnownPacks => match SKnownPacks::read(data) {
                Ok(p) => Ok(self.handle_known_packs(p)),
                Err(e) => Err(e),
            },
            _ => {
                let mut r: Vec<ClientAction> = Vec::new();
                r.push(ClientAction::Play(kind, packet));
                Ok(r)
            },
        };
        assert(handled(pre, *self, pk, r));
        r
    }

    /// Handles the queued packets in the order they arrived, until the queue
    /// is empty or the session is closed: each is taken off the front and
    /// given to `handle_packet`, and one whose fields cannot be read kicks the
    /// client. What the calls hand back is handed back in that order.
    pub fn process_packets(&mut self) -> (r: Vec<ClientAction>)
        ensures
            processed(*old(self), *final(self), r@),
    {
        let mut actions: Vec<ClientAction> = Vec::new();
        let ghost mut states: Seq<Client> = seq![*self];
        let ghost mut pops: Seq<Client> = Seq::empty();
        let ghost mut mids: Seq<Client> = Seq::empty();
        let ghost mut results: Seq<Result<Vec<ClientAction>, DeserializerError>> = Seq::empty();
        let ghost mut outs: Seq<Seq<ClientAction>> = Seq::empty();
        while self.client_packets_queue.len() > 0 && !self.closed
            invariant
                trace_steps(states, pops, mids, results, outs),
                states[0] == *old(self),
                states.last() == *self,
                actions@ == flatten(outs),
            decreases self.client_packets_queue@.len(),
        {
            let ghost before = *self;
            let packet = self.client_packets_queue.remove(0);
            let ghost popped = *self;
            assert(popped.client_packets_queue@ =~= before.client_packets_queue@.drop_first());
            let res = self.handle_packet(packet);
            let ghost mid = *self;
            let ghost res_g = res;
            let mut handled_actions = match res {
                Ok(a) => a,
                Err(e) => self.kick(DisconnectReason::Deserialize(e)),
            };
            let ghost out = handled_actions@;
            let ghost old_actions = actions@;
            actions.append(&mut handled_actions);
            proof {
                assert(popped == (Client { client_packets_queue: popped.client_packets_queue, ..before }));
                assert(step(before, popped, mid, *self, res_g, out));
                let s0 = states;
                let p0 = pops;
                let m0 = mids;
                let r0 = results;
                let o0 = outs;
                let n = pops.len();
                states = states.push(*self);
                pops = pops.push(popped);
                mids = mids.push(mid);
                results = results.push(res_g);
                outs = outs.push(out);
                assert(outs.drop_last() =~= o0);
                assert forall|i: int| 0 <= i < pops.len() implies step(
                    states[i],
                    #[trigger] pops[i],
                    mids[i],
                    states[i + 1],
                    results[i],
                    outs[i],
                ) by {
                    if i < n {
                        assert(states[i] == s0[i] && states[i + 1] == s0[i + 1] && pops[i] == p0[i]
                            && mids[i] == m0[i] && results[i] == r0[i] && outs[i] == o0[i]);
                    }
                }
            }
        }
        proof {
            assert(trace_ok(*old(self), *self, states, pops, mids, results, outs, actions@));
        }
        actions
    }
}


/// A framing step that yields a frame consumes input, and the framer never
/// waits for the bytes of an empty frame.
pub proof fn lemma_frame_step_progress(state: FrameState, src: Seq<u8>)
    requires
        state matches FrameState::AwaitingBody(n) ==> n > 0,
    ensures
        frame_step(state, src).result is Frame ==> frame_step(state, src).rest.len() < src.len(),
        frame_step(state, src).state matches FrameState::AwaitingBody(n) ==> n > 0,
{
    if state is AwaitingLength {
        if crate::varint::decode_spec(src) is Ok {
            crate::varint::lemma_decode_len(src);
        }
    }
}

/// The actions of a run of handler calls, one after another.
pub open spec fn flatten(outs: Seq<Seq<ClientAction>>) -> Seq<ClientAction>
    decreases outs.len(),
{
    if outs.len() == 0 {
        Seq::empty()
    } else {
        flatten(outs.drop_last()) + outs.last()
    }
}

/// One step of processing the queue of `before`: its first packet is taken
/// off (`popped`), handled (`mid`, `res`), and a read error kicks the client
/// (`after`); `out` is what the step hands back.
pub open spec fn step(
    before: Client,
    popped: Client,
    mid: Client,
    after: Client,
    res: Result<Vec<ClientAction>, DeserializerError>,
    out: Seq<ClientAction>,
) -> bool {
    &&& !before.closed
    &&& before.client_packets_queue@.len() > 0
    &&& popped == (Client { client_packets_queue: popped.client_packets_queue, ..before })
    &&& popped.client_packets_queue@ == before.client_packets_queue@.drop_first()
    &&& handled(popped, mid, before.client_packets_queue@[0], res)
    &&& match res {
        Ok(a) => after == mid && out == a@,
        Err(e) => after == (Client { closed: true, ..mid }) && out == disconnect_actions(
            mid.connection_state,
            DisconnectReason::Deserialize(e),
        ),
    }
}

/// The sessions between steps, each step as `step` says.
pub open spec fn trace_steps(
    states: Seq<Client>,
    pops: Seq<Client>,
    mids: Seq<Client>,
    results: Seq<Result<Vec<ClientAction>, DeserializerError>>,
    outs: Seq<Seq<ClientAction>>,
) -> bool {
    &&& states.len() == pops.len() + 1
    &&& mids.len() == pops.len()
    &&& results.len() == pops.len()
    &&& outs.len() == pops.len()
    &&& forall|i: int|
        0 <= i < pops.len() ==> step(
            states[i],
            #[trigger] pops[i],
            mids[i],
            states[i + 1],
            results[i],
            outs[i],
        )
}

pub open spec fn trace_ok(
    pre: Client,
    post: Client,
    states: Seq<Client>,
    pops: Seq<Client>,
    mids: Seq<Client>,
    results: Seq<Result<Vec<ClientAction>, DeserializerError>>,
    outs: Seq<Seq<ClientAction>>,
    r: Seq<ClientAction>,
) -> bool {
    &&& trace_steps(states, pops, mids, results, outs)
    &&& states[0] == pre
    &&& states.last() == post
    &&& r == flatten(outs)
    &&& post.closed || post.client_packets_queue@.len() == 0
}

/// `post` and `r` are what processing the queue of `pre` comes to: its packets
/// handled front first, step by step, until the queue is empty or the session
/// closed.
pub open spec fn processed(pre: Client, post: Client, r: Seq<ClientAction>) -> bool {
    exists|
        states: Seq<Client>,
        pops: Seq<Client>,
        mids: Seq<Client>,
        results: Seq<Result<Vec<ClientAction>, DeserializerError>>,
        outs: Seq<Seq<ClientAction>>,
    | #[trigger] trace_ok(pre, post, states, pops, mids, results, outs, r)
}

/// What reading every complete packet off a buffer comes to: where the
/// framer stands after, the bytes left, the packets read (id and fields), and
/// the error that stopped the reading, if one did.
pub struct DrainOutcome {
    pub state: FrameState,
    pub rest: Seq<u8>,
    pub packets: Seq<(i32, Seq<u8>)>,
    pub error: Option<PacketError>,
}

/// Reads packets off `buf` until no complete frame is left or an error
/// occurs, taking at most `fuel` steps.
pub open spec fn drain(compression: bool, state: FrameState, buf: Seq<u8>, fuel: nat) -> DrainOutcome
    decreases fuel,
{
    if fuel == 0 {
        DrainOutcome { state, rest: buf, packets: Seq::empty(), error: None }
    } else {
        let o = frame_step(state, buf);
        match o.result {
            FrameResult::NoFrame => DrainOutcome {
                state: o.state,
                rest: o.rest,
                packets: Seq::empty(),
                error: None,
            },
            FrameResult::Malformed => DrainOutcome {
                state: o.state,
                rest: o.rest,
                packets: Seq::empty(),
                error: Some(PacketError::MalformedLength),
            },
            FrameResult::Frame(b) => match frame_packet(compression, b) {
                Err(e) => DrainOutcome {
                    state: o.state,
                    rest: o.rest,
                    packets: Seq::empty(),
                    error: Some(e),
                },
                Ok(p) => {
                    let d = drain(compression, o.state, o.rest, (fuel - 1) as nat);
                    DrainOutcome { state: d.state, rest: d.rest, packets: seq![p] + d.packets, error: d.error }
                },
            },
        }
    }
}

/// Reading every complete packet off `buf`: each step that yields a packet
/// consumes a byte at least, so one step per byte, and one more, suffice.
pub open spec fn drain_all(compression: bool, state: FrameState, buf: Seq<u8>) -> DrainOutcome {
    drain(compression, state, buf, buf.len() + 1)
}

/// More steps than bytes change nothing.
proof fn lemma_drain_fuel(compression: bool, state: FrameState, buf: Seq<u8>, fuel: nat)
    requires
        fuel >= buf.len() + 1,
        state matches FrameState::AwaitingBody(n) ==> n > 0,
    ensures
        drain(compression, state, buf, fuel) == drain_all(compression, state, buf),
    decreases fuel,
{
    lemma_frame_step_progress(state, buf);
    let o = frame_step(state, buf);
    if o.result is Frame {
        let b = o.result->Frame_0;
        if frame_packet(compression, b) is Ok {
            lemma_drain_fuel(compression, o.state, o.rest, (fuel - 1) as nat);
            lemma_drain_fuel(compression, o.state, o.rest, buf.len());
        }
    }
}

/// The id and fields of each packet of a queue.
pub open spec fn packet_views(q: Seq<UncompressedPacket>) -> Seq<(i32, Seq<u8>)> {
    q.map_values(|p: UncompressedPacket| (p.id, p.data@))
}

impl Client {
    /// Takes bytes read from the socket (already decrypted) and queues every
    /// packet they complete, oldest first. A transport error (a malformed
    /// length, a packet that does not inflate or has no readable id) closes
    /// the session without a farewell: the stream can no longer be trusted,
    /// and the reason is not disclosed. The error is handed back.
    pub fn receive(&mut self, bytes: &[u8]) -> (r: Option<PacketError>)
        requires
            old(self).dec.framer.state matches FrameState::AwaitingBody(n) ==> n > 0,
        ensures
            ({
                let full = drain_all(
                    old(self).dec.compression,
                    old(self).dec.framer.state,
                    old(self).dec.buf@ + bytes@,
                );
                &&& packet_views(final(self).client_packets_queue@) == packet_views(
                    old(self).client_packets_queue@,
                ) + full.packets
                &&& final(self).dec.framer.state == full.state
                &&& final(self).dec.buf@ == full.rest
                &&& r == full.error
                &&& final(self).closed == (old(self).closed || full.error is Some)
            }),
            final(self).dec.framer.state matches FrameState::AwaitingBody(n) ==> n > 0,
            final(self).connection_state == old(self).connection_state,
            final(self).enc == old(self).enc,
            final(self).dec.compression == old(self).dec.compression,
            final(self).token == old(self).token,
    {
        self.dec.queue_slice(bytes);
        let ghost q0 = self.client_packets_queue@;
        let ghost full = drain_all(self.dec.compression, self.dec.framer.state, self.dec.buf@);
        assert(full.packets.skip(0) =~= full.packets);
        assert(full.packets.take(0) =~= Seq::<(i32, Seq<u8>)>::empty());
        assert(packet_views(q0) + Seq::<(i32, Seq<u8>)>::empty() =~= packet_views(q0));
        loop
            invariant
                self.dec.framer.state matches FrameState::AwaitingBody(n) ==> n > 0,
                q0 == old(self).client_packets_queue@,
                full == drain_all(
                    old(self).dec.compression,
                    old(self).dec.framer.state,
                    old(self).dec.buf@ + bytes@,
                ),
                q0.len() <= self.client_packets_queue@.len(),
                packet_views(self.client_packets_queue@) == packet_views(q0) + full.packets.take(
                    self.client_packets_queue@.len() - q0.len(),
                ),
                self.client_packets_queue@.len() - q0.len() <= full.packets.len(),
                drain_all(self.dec.compression, self.dec.framer.state, self.dec.buf@) == (DrainOutcome {
                    state: full.state,
                    rest: full.rest,
                    packets: full.packets.skip(self.client_packets_queue@.len() - q0.len()),
                    error: full.error,
                }),
                self.connection_state == old(self).connection_state,
                self.enc == old(self).enc,
                self.dec.compression == old(self).dec.compression,
                self.token == old(self).token,
                self.closed == old(self).closed,
            decreases self.dec.buf@.len(),
        {
            proof {
                lemma_frame_step_progress(self.dec.framer.state, self.dec.buf@);
            }
            let ghost k = self.client_packets_queue@.len() - q0.len();
            let ghost pre_state = self.dec.framer.state;
            let ghost pre_buf = self.dec.buf@;
            match self.dec.decode() {
                Ok(Some(packet)) => {
                    let ghost before = self.client_packets_queue@;
                    proof {
                        let o = frame_step(pre_state, pre_buf);
                        lemma_drain_fuel(self.dec.compression, o.state, o.rest, pre_buf.len());
                        let rem = drain_all(self.dec.compression, pre_state, pre_buf);
                        assert(rem.packets == seq![(packet.id, packet.data@)] + drain_all(
                            self.dec.compression,
                            o.state,
                            o.rest,
                        ).packets);
                        assert(full.packets.skip(k).len() >= 1);
                        let d = drain_all(self.dec.compression, o.state, o.rest);
                        assert((seq![(packet.id, packet.data@)] + d.packets).skip(1) =~= d.packets);
                        assert(d.packets =~= full.packets.skip(k).skip(1));
                        assert(d.state == full.state && d.rest == full.rest && d.error == full.error);
                        assert(self.dec.framer.state == o.state && self.dec.buf@ == o.rest);
                    }
                    self.add_packet(packet);
                    proof {
                        assert(packet_views(self.client_packets_queue@) =~= packet_views(before).push(
                            (packet.id, packet.data@),
                        ));
                        assert(full.packets.skip(k)[0] == (packet.id, packet.data@));
                        assert(full.packets.take(k + 1) =~= full.packets.take(k).push(full.packets[k]));
                        assert(full.packets.skip(k + 1) =~= full.packets.skip(k).skip(1));
                        assert(packet_views(self.client_packets_queue@) =~= packet_views(q0)
                            + full.packets.take(k + 1));
                    }
                },
                Ok(None) => {
                    assert(full.packets.take(k) =~= full.packets);
                    return None;
                },
                Err(e) => {
                    assert(full.packets.take(k) =~= full.packets);
                    self.close();
                    return Some(e);
                },
            }
        }
    }
}

/// Whether `c` holds the settings of a client-information packet.
pub open spec fn config_matches(c: Option<PlayerConfig>, f: ClientInformationFields) -> bool {
    &&& c is Some
    &&& c->0.locale@ == f.locale
    &&& c->0.view_distance == f.view_distance
    &&& Some(c->0.chat_mode) == ChatMode::from_i32_spec(f.chat_mode)
    &&& c->0.chat_colors == f.chat_colors
    &&& c->0.skin_parts == f.skin_parts
    &&& Some(c->0.main_hand) == Hand::from_i32_spec(f.main_hand)
    &&& c->0.text_filtering == f.text_filtering
    &&& c->0.server_listing == f.server_listing
}

pub open spec fn ok_with(r: Result<Vec<ClientAction>, DeserializerError>, a: Seq<ClientAction>) -> bool {
    r is Ok && r->Ok_0@ == a
}

pub open spec fn malformed(r: Result<Vec<ClientAction>, DeserializerError>) -> bool {
    r == Err::<Vec<ClientAction>, DeserializerError>(DeserializerError::Malformed)
}

/// What handling `packet` does to the session `pre`, leaving `post` and
/// handing back `r`: the packet's id picks the handler in the session's phase,
/// its fields are read, and the handler runs on them. An id the phase does not
/// accept, or fields that cannot be read, change nothing.
pub open spec fn handled(
    pre: Client,
    post: Client,
    packet: UncompressedPacket,
    r: Result<Vec<ClientAction>, DeserializerError>,
) -> bool {
    let data = packet.data@;
    &&& post.token == pre.token
    &&& post.enc == pre.enc
    &&& post.dec == pre.dec
    &&& post.encryption == pre.encryption
    &&& post.entity_id == pre.entity_id
    &&& post.client_packets_queue == pre.client_packets_queue
    &&& r is Err ==> post == pre
    &&& match packet_kind(pre.connection_state, packet.id) {
        None => ok_with(r, Seq::empty()) && post == pre,
        Some(kind) => match kind {
            ServerboundPacket::HandShake => match handshake_fields(data) {
                None => malformed(r),
                Some((version, _, _, next)) => ok_with(r, handshake_actions(version, next)) && post
                    == (Client {
                    protocol_version: version,
                    connection_state: next,
                    closed: pre.closed || handshake_outcome(version, next) is Some,
                    ..pre
                }),
            },
            ServerboundPacket::StatusRequest => ok_with(r, seq![ClientAction::SendStatus]) && post
                == pre,
            ServerboundPacket::StatusPingRequest => match spec_be(data, 0, 8) {
                None => malformed(r),
                Some((v, _)) => ok_with(r, seq![ClientAction::SendPong(v as i64)]) && post == (Client {
                    closed: true,
                    ..pre
                }),
            },
            ServerboundPacket::LoginStart => match login_start_fields(data) {
                None => malformed(r),
                Some((name, uuid)) => if valid_player_name(name) {
                    ok_with(r, seq![ClientAction::RequestEncryption]) && post == (Client {
                        gameprofile: post.gameprofile,
                        ..pre
                    }) && post.gameprofile is Some && post.gameprofile->0.name@ == name
                        && post.gameprofile->0.id@ == uuid
                } else {
                    ok_with(r, disconnect_actions(pre.connection_state, DisconnectReason::InvalidUsername))
                        && post == (Client { closed: true, ..pre })
                },
            },
            ServerboundPacket::EncryptionResponse => match encryption_response_fields(data) {
                None => malformed(r),
                Some((secret, token)) => r is Ok && r->Ok_0@.len() == 1
                    && r->Ok_0@[0] is DecryptSharedSecret
                    && r->Ok_0@[0]->DecryptSharedSecret_0.shared_secret@ == secret
                    && r->Ok_0@[0]->DecryptSharedSecret_0.verify_token@ == token && post == pre,
            },
            ServerboundPacket::LoginPluginResponse => match login_plugin_response_fields(data) {
                None => malformed(r),
                Some(_) => ok_with(r, Seq::empty()) && post == pre,
            },
            ServerboundPacket::LoginAcknowledged => ok_with(
                r,
                seq![ClientAction::SendConfiguration],
            ) && post == (Client { connection_state: ConnectionState::Config, ..pre }),
            ServerboundPacket::ClientInformationConfig => match client_information_fields(data) {
                None => malformed(r),
                Some(f) => if ChatMode::from_i32_spec(f.chat_mode) is Some && Hand::from_i32_spec(
                    f.main_hand,
                ) is Some {
                    ok_with(r, Seq::empty()) && post == (Client { config: post.config, ..pre })
                        && config_matches(post.config, f)
                } else {
                    malformed(r)
                },
            },
            ServerboundPacket::PluginMessage => match plugin_message_fields(data) {
                None => malformed(r),
                Some((channel, d)) => if !is_brand_channel(channel) {
                    ok_with(r, Seq::empty()) && post == pre
                } else if valid_utf8(d) {
                    ok_with(r, Seq::empty()) && post == (Client { brand: post.brand, ..pre })
                        && post.brand is Some && post.brand->0@ == decode_utf8(d)
                } else {
                    ok_with(r, disconnect_actions(pre.connection_state, DisconnectReason::InvalidBrand))
                        && post == (Client { closed: true, ..pre })
                },
            },
            ServerboundPacket::AcknowledgeFinishConfig => ok_with(
                r,
                seq![ClientAction::SpawnPlayer],
            ) && post == (Client { connection_state: ConnectionState::Play, ..pre }),
            ServerboundPacket::KnownPacks => match known_packs_fields(data) {
                None => malformed(r),
                Some(_) => ok_with(r, seq![ClientAction::SendRegistries]) && post == pre,
            },
            _ => ok_with(r, seq![ClientAction::Play(kind, packet)]) && post == pre,
        },
    }
}

/// What finishing a login hands back: the compression announcement when
/// compression is configured, then the login success.
pub open spec fn login_actions(compression: Option<(u32, u32)>) -> Seq<ClientAction> {
    match compression {
        Some((threshold, _)) => seq![ClientAction::SetCompression(threshold), ClientAction::LoginSuccess],
        None => seq![ClientAction::LoginSuccess],
    }
}

/// Whether a plugin channel carries the client's brand.
pub open spec fn is_brand_channel(channel: Seq<char>) -> bool {
    ("minecraft:brand"@.len() <= channel.len() && channel.take("minecraft:brand"@.len() as int)
        == "minecraft:brand"@) || ("MC|Brand"@.len() <= channel.len() && channel.take(
        "MC|Brand"@.len() as int,
    ) == "MC|Brand"@)
}

} // verus!
