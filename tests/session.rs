use pumpkin::client::{
    is_valid_player_name, Client, ClientAction, DisconnectReason, EncryptionError, PlayerConfig,
    ChatMode, Hand,
};
use pumpkin::clientbound::{ping_response, remove_entities, set_compression, write_string, plugin_message};
use pumpkin::codec::{PacketError, UncompressedPacket};
use pumpkin::entity::Flag;
use pumpkin::handshake::{decode, DeserializerError, SHandShakeMessage};
use pumpkin::listing::BikeShedServerListing;
use pumpkin::pipeline::PacketDecoder;
use pumpkin::server::{ResourcePackConfig, Server};
use pumpkin::state::{lookup_packet, ConnectionState, ServerboundPacket, CURRENT_MC_PROTOCOL};
use pumpkin::varint::encode_varint;
use pumpkin::error::{PumpkinError, Severity};
use pumpkin::reason::{disconnect_packet, disconnect_text};

fn handshake_data(version: i32, next: i32) -> Vec<u8> {
    let mut d = Vec::new();
    encode_varint(version, &mut d);
    write_string(&mut d, "localhost");
    d.extend_from_slice(&25565u16.to_be_bytes());
    encode_varint(next, &mut d);
    d
}

fn login_start_data(name: &str) -> Vec<u8> {
    let mut d = Vec::new();
    write_string(&mut d, name);
    d.extend_from_slice(&[7u8; 16]);
    d
}

fn frame_of(id: i32, data: &[u8]) -> Vec<u8> {
    let mut body = Vec::new();
    encode_varint(id, &mut body);
    body.extend_from_slice(data);
    let mut out = Vec::new();
    encode_varint(body.len() as i32, &mut out);
    out.extend_from_slice(&body);
    out
}

fn playing(token: u32) -> Client {
    let mut c = Client::new(token);
    c.connection_state = ConnectionState::Play;
    c
}

#[test]
fn handshake_same_version_moves_to_login() {
    let mut c = Client::new(1);
    let actions = c.handle_packet(UncompressedPacket::new(0, handshake_data(CURRENT_MC_PROTOCOL, 2))).unwrap();
    assert!(actions.is_empty());
    assert_eq!(c.connection_state, ConnectionState::Login);
    assert_eq!(c.protocol_version, CURRENT_MC_PROTOCOL);
    assert!(!c.closed);
}

#[test]
fn handshake_older_client_is_told_client_outdated() {
    let mut c = Client::new(1);
    let actions = c.handle_packet(UncompressedPacket::new(0, handshake_data(CURRENT_MC_PROTOCOL - 1, 2))).unwrap();
    assert_eq!(actions.len(), 1);
    assert!(matches!(actions[0], ClientAction::Disconnect(DisconnectReason::ClientOutdated(v)) if v == CURRENT_MC_PROTOCOL - 1));
    assert!(c.closed);
}

#[test]
fn handshake_newer_client_is_told_server_outdated() {
    let mut c = Client::new(1);
    let actions = c.handle_packet(UncompressedPacket::new(0, handshake_data(CURRENT_MC_PROTOCOL + 1, 2))).unwrap();
    assert_eq!(actions.len(), 1);
    assert!(matches!(actions[0], ClientAction::Disconnect(DisconnectReason::ServerOutdated)));
    assert!(c.closed);
}

#[test]
fn handshake_to_status_ignores_version() {
    let mut c = Client::new(1);
    let actions = c.handle_packet(UncompressedPacket::new(0, handshake_data(5, 1))).unwrap();
    assert!(actions.is_empty());
    assert_eq!(c.connection_state, ConnectionState::Status);
    assert!(!c.closed);
}

#[test]
fn handshake_malformed_fields() {
    let mut c = Client::new(1);
    let r = c.handle_packet(UncompressedPacket::new(0, handshake_data(767, 9)));
    assert_eq!(r.err(), Some(DeserializerError::Malformed));
    assert_eq!(c.connection_state, ConnectionState::HandShake);
}

#[test]
fn handshake_decode_reads_fields() {
    match decode(UncompressedPacket::new(0, handshake_data(767, 3))).ok().unwrap() {
        SHandShakeMessage::SHandShake(h) => {
            assert_eq!(h.protocol_version, 767);
            assert_eq!(h.server_address, "localhost");
            assert_eq!(h.server_port, 25565);
            assert_eq!(h.next_state, ConnectionState::Transfer);
        }
        _ => panic!("expected a handshake"),
    }
    assert_eq!(decode(UncompressedPacket::new(1, handshake_data(767, 3))).err(), Some(DeserializerError::WrongPacketId));
    assert_eq!(decode(UncompressedPacket::new(0, vec![0x80])).err(), Some(DeserializerError::Malformed));
}

#[test]
fn illegal_ids_are_ignored_in_every_phase() {
    let cases = [
        (ConnectionState::HandShake, 0x01),
        (ConnectionState::Status, 0x02),
        (ConnectionState::Login, 0x04),
        (ConnectionState::Transfer, 0x7f),
        (ConnectionState::Config, 0x01),
        (ConnectionState::Play, 0x05),
    ];
    for (state, id) in cases {
        assert!(lookup_packet(state, id).is_none());
        let mut c = Client::new(3);
        c.connection_state = state;
        let actions = c.handle_packet(UncompressedPacket::new(id, vec![1, 2, 3])).unwrap();
        assert!(actions.is_empty());
        assert_eq!(c.connection_state, state);
        assert!(!c.closed);
        assert!(c.enc.buf.is_empty());
    }
}

#[test]
fn same_id_means_different_packets_by_phase() {
    assert_eq!(lookup_packet(ConnectionState::HandShake, 0), Some(ServerboundPacket::HandShake));
    assert_eq!(lookup_packet(ConnectionState::Status, 0), Some(ServerboundPacket::StatusRequest));
    assert_eq!(lookup_packet(ConnectionState::Login, 0), Some(ServerboundPacket::LoginStart));
    assert_eq!(lookup_packet(ConnectionState::Transfer, 3), Some(ServerboundPacket::LoginAcknowledged));
    assert_eq!(lookup_packet(ConnectionState::Config, 7), Some(ServerboundPacket::KnownPacks));
    assert_eq!(lookup_packet(ConnectionState::Play, 0x1a), Some(ServerboundPacket::Position));
}

#[test]
fn status_exchange() {
    let mut c = Client::new(1);
    c.connection_state = ConnectionState::Status;
    let a = c.handle_packet(UncompressedPacket::new(0, vec![])).unwrap();
    assert!(matches!(a[..], [ClientAction::SendStatus]));
    let a = c.handle_packet(UncompressedPacket::new(1, 0x0102030405060708i64.to_be_bytes().to_vec())).unwrap();
    assert!(matches!(a[..], [ClientAction::SendPong(0x0102030405060708)]));
    assert!(c.closed);
    let short = c.handle_packet(UncompressedPacket::new(1, vec![1, 2]));
    assert_eq!(short.err(), Some(DeserializerError::Malformed));
}

#[test]
fn login_flow_to_play() {
    let mut c = Client::new(1);
    c.connection_state = ConnectionState::Login;
    let a = c.handle_packet(UncompressedPacket::new(0, login_start_data("Steve"))).unwrap();
    assert!(matches!(a[..], [ClientAction::RequestEncryption]));
    assert_eq!(c.gameprofile.as_ref().unwrap().name, "Steve");
    assert_eq!(c.gameprofile.as_ref().unwrap().id, vec![7u8; 16]);

    let mut resp = Vec::new();
    encode_varint(3, &mut resp);
    resp.extend_from_slice(&[1, 2, 3]);
    encode_varint(1, &mut resp);
    resp.push(9);
    let a = c.handle_packet(UncompressedPacket::new(1, resp)).unwrap();
    match &a[..] {
        [ClientAction::DecryptSharedSecret(r)] => {
            assert_eq!(r.shared_secret, vec![1, 2, 3]);
            assert_eq!(r.verify_token, vec![9]);
        }
        _ => panic!("expected a decrypt request"),
    }

    let a = c.complete_login(Ok(vec![5u8; 16]), Some((256, 6)));
    assert!(matches!(a[..], [ClientAction::SetCompression(256), ClientAction::LoginSuccess]));
    assert!(c.encryption);

    let a = c.handle_packet(UncompressedPacket::new(3, vec![])).unwrap();
    assert!(matches!(a[..], [ClientAction::SendConfiguration]));
    assert_eq!(c.connection_state, ConnectionState::Config);

    let a = c.handle_packet(UncompressedPacket::new(7, vec![0])).unwrap();
    assert!(matches!(a[..], [ClientAction::SendRegistries]));
    let mut packs = vec![1];
    write_string(&mut packs, "minecraft");
    write_string(&mut packs, "core");
    write_string(&mut packs, "1.21");
    assert!(matches!(c.handle_packet(UncompressedPacket::new(7, packs)).unwrap()[..], [ClientAction::SendRegistries]));
    assert_eq!(c.handle_packet(UncompressedPacket::new(7, vec![2, 3, b'a'])).err(), Some(DeserializerError::Malformed));
    assert_eq!(c.handle_packet(UncompressedPacket::new(7, vec![])).err(), Some(DeserializerError::Malformed));

    let a = c.handle_packet(UncompressedPacket::new(3, vec![])).unwrap();
    assert!(matches!(a[..], [ClientAction::SpawnPlayer]));
    assert_eq!(c.connection_state, ConnectionState::Play);
    assert!(c.is_player());
}

#[test]
fn invalid_username_is_kicked() {
    let mut c = Client::new(1);
    c.connection_state = ConnectionState::Login;
    let a = c.handle_packet(UncompressedPacket::new(0, login_start_data("bad name"))).unwrap();
    assert!(matches!(a[..], [ClientAction::Disconnect(DisconnectReason::InvalidUsername)]));
    assert!(c.closed);
    assert!(c.gameprofile.is_none());
}

#[test]
fn player_names() {
    assert!(is_valid_player_name("Notch"));
    assert!(is_valid_player_name("a_b-c.1234567890"));
    assert!(!is_valid_player_name("a_b-c.12345678901"));
    assert!(!is_valid_player_name("with space"));
    assert!(!is_valid_player_name("caf\u{e9}"));
    assert!(is_valid_player_name(""));
}

#[test]
fn complete_login_failures() {
    let mut c = Client::new(1);
    c.connection_state = ConnectionState::Login;
    let a = c.complete_login(Err(EncryptionError::FailedDecrypt), None);
    assert!(matches!(a[..], [ClientAction::Disconnect(DisconnectReason::Encryption(EncryptionError::FailedDecrypt))]));
    assert!(c.closed);

    let mut c = Client::new(1);
    c.connection_state = ConnectionState::Login;
    let a = c.complete_login(Ok(vec![1; 15]), None);
    assert!(matches!(a[..], [ClientAction::Disconnect(DisconnectReason::Encryption(EncryptionError::SharedWrongLength))]));
    assert!(!c.encryption);

    let mut c = Client::new(1);
    c.connection_state = ConnectionState::Login;
    let a = c.complete_login(Ok(vec![1; 16]), None);
    assert!(matches!(a[..], [ClientAction::Disconnect(DisconnectReason::MissingProfile)]));
}

#[test]
fn encryption_is_enabled_once() {
    let mut c = Client::new(1);
    assert_eq!(c.enable_encryption(&[0u8; 15]), Err(EncryptionError::SharedWrongLength));
    assert!(!c.encryption);
    assert_eq!(c.enable_encryption(&[0u8; 16]), Ok(()));
    assert!(c.encryption);
    assert_eq!(c.enable_encryption(&[1u8; 16]), Err(EncryptionError::AlreadyEnabled));
    assert_eq!(c.enable_encryption(&[1u8; 3]), Err(EncryptionError::SharedWrongLength));
    assert!(c.encryption);
    assert!(c.encryption);
}

#[test]
fn kick_depends_on_phase() {
    for (state, notified) in [
        (ConnectionState::HandShake, false),
        (ConnectionState::Status, false),
        (ConnectionState::Transfer, false),
        (ConnectionState::Login, true),
        (ConnectionState::Config, true),
        (ConnectionState::Play, true),
    ] {
        let mut c = Client::new(1);
        c.connection_state = state;
        let a = c.kick(DisconnectReason::Transport(PacketError::MalformedLength));
        assert_eq!(a.len() == 1, notified);
        assert!(c.closed);
    }
}

#[test]
fn client_information_is_kept() {
    let mut c = Client::new(1);
    c.connection_state = ConnectionState::Config;
    let mut d = Vec::new();
    write_string(&mut d, "de_de");
    d.push(12);
    encode_varint(1, &mut d);
    d.push(1);
    d.push(0x7f);
    encode_varint(0, &mut d);
    d.push(0);
    d.push(1);
    assert!(c.handle_packet(UncompressedPacket::new(0, d.clone())).unwrap().is_empty());
    let cfg = c.config.as_ref().unwrap();
    assert_eq!(cfg.locale, "de_de");
    assert_eq!(cfg.view_distance, 12);
    assert_eq!(cfg.chat_mode, ChatMode::CommandsOnly);
    assert!(cfg.chat_colors);
    assert_eq!(cfg.skin_parts, 0x7f);
    assert_eq!(cfg.main_hand, Hand::Main);
    assert!(!cfg.text_filtering);
    assert!(cfg.server_listing);

    let mut bad = d.clone();
    bad[7] = 5;
    let mut c2 = Client::new(2);
    c2.connection_state = ConnectionState::Config;
    assert_eq!(c2.handle_packet(UncompressedPacket::new(0, bad)).err(), Some(DeserializerError::Malformed));
}

#[test]
fn player_config_default() {
    let d = PlayerConfig::default();
    assert_eq!(d.locale, "en_us");
    assert_eq!(d.view_distance, 2);
    assert_eq!(d.chat_mode, ChatMode::Enabled);
    assert!(d.chat_colors);
    assert_eq!(d.main_hand, Hand::Main);
}

#[test]
fn brand_plugin_message() {
    let mut c = Client::new(1);
    c.connection_state = ConnectionState::Config;
    let mut d = Vec::new();
    write_string(&mut d, "minecraft:brand");
    d.extend_from_slice(b"vanilla");
    assert!(c.handle_packet(UncompressedPacket::new(2, d)).unwrap().is_empty());
    assert_eq!(c.brand.as_deref(), Some("vanilla"));

    let mut other = Vec::new();
    write_string(&mut other, "mod:channel");
    other.extend_from_slice(&[0xff]);
    let mut c2 = Client::new(2);
    c2.connection_state = ConnectionState::Config;
    assert!(c2.handle_packet(UncompressedPacket::new(2, other)).unwrap().is_empty());
    assert!(c2.brand.is_none());

    let mut bad = Vec::new();
    write_string(&mut bad, "MC|Brand");
    bad.extend_from_slice(&[0xff, 0xfe]);
    let mut c3 = Client::new(3);
    c3.connection_state = ConnectionState::Config;
    let a = c3.handle_packet(UncompressedPacket::new(2, bad)).unwrap();
    assert!(matches!(a[..], [ClientAction::Disconnect(DisconnectReason::InvalidBrand)]));
}

#[test]
fn invalid_utf8_string_is_malformed() {
    let mut c = Client::new(1);
    c.connection_state = ConnectionState::Login;
    let mut d = vec![2, 0xc3, 0x28];
    d.extend_from_slice(&[0u8; 16]);
    assert_eq!(c.handle_packet(UncompressedPacket::new(0, d)).err(), Some(DeserializerError::Malformed));
}

#[test]
fn receive_queues_packets_in_order() {
    let mut c = Client::new(1);
    c.connection_state = ConnectionState::Status;
    let mut bytes = frame_of(0, &[]);
    bytes.extend(frame_of(1, &42i64.to_be_bytes()));
    let split = bytes.len() - 3;
    assert!(c.receive(&bytes[..split]).is_none());
    assert_eq!(c.client_packets_queue.len(), 1);
    assert!(c.receive(&bytes[split..]).is_none());
    assert_eq!(c.client_packets_queue.len(), 2);
    assert_eq!(c.client_packets_queue[0].id, 0);
    assert_eq!(c.client_packets_queue[1].id, 1);
    let actions = c.process_packets();
    assert!(matches!(actions[..], [ClientAction::SendStatus, ClientAction::SendPong(42)]));
    assert!(c.client_packets_queue.is_empty());
}

#[test]
fn receive_malformed_length_closes() {
    let mut c = Client::new(1);
    c.connection_state = ConnectionState::Login;
    let e = c.receive(&[0xff, 0xff, 0xff, 0xff, 0xff, 0xff]);
    assert_eq!(e, Some(PacketError::MalformedLength));
    assert!(c.closed);
    assert!(c.take_outgoing().is_empty());
}

#[test]
fn process_packets_kicks_on_bad_fields() {
    let mut c = Client::new(1);
    c.connection_state = ConnectionState::Login;
    c.add_packet(UncompressedPacket::new(0, vec![0x80]));
    c.add_packet(UncompressedPacket::new(0, login_start_data("Alex")));
    let a = c.process_packets();
    assert!(matches!(a[..], [ClientAction::Disconnect(DisconnectReason::Deserialize(DeserializerError::Malformed))]));
    assert!(c.closed);
}

#[test]
fn send_packet_goes_through_compression() {
    let mut c = Client::new(1);
    c.set_compression(Some((4, 6)));
    assert!(c.dec.compression);
    assert!(c.send_packet(&UncompressedPacket::new(9, vec![1])).is_empty());
    assert_eq!(c.take_outgoing(), vec![3, 0, 9, 1]);
    c.try_send_packet(&UncompressedPacket::new(9, vec![1; 20])).unwrap();
    let out = c.take_outgoing();
    let mut dec = PacketDecoder::new();
    dec.set_compression(Some(4));
    dec.queue_slice(&out);
    let p = dec.decode().unwrap().unwrap();
    assert_eq!((p.id, p.data), (9, vec![1; 20]));
}

#[test]
fn broadcast_reaches_each_other_player_once() {
    let mut server = Server::new(String::from("{}"), None);
    server.add_client(10, playing(10));
    server.add_client(11, playing(11));
    server.add_client(12, playing(12));
    let packet = UncompressedPacket::new(0x1a, vec![1, 2, 3, 4]);
    let actions = server.broadcast_packet_expect(&[10], &packet);
    assert!(actions.is_empty());
    let one_frame = vec![5, 0x1a, 1, 2, 3, 4];
    assert!(server.clients[0].enc.buf.is_empty());
    assert_eq!(server.clients[1].enc.buf, one_frame);
    assert_eq!(server.clients[2].enc.buf, one_frame);
}

#[test]
fn broadcast_skips_closed_connections() {
    let mut server = Server::new(String::from("{}"), None);
    server.add_client(1, playing(1));
    let mut closed = playing(2);
    closed.close();
    server.add_client(2, closed);
    server.broadcast_packet_expect(&[], &UncompressedPacket::new(1, vec![]));
    assert_eq!(server.clients[0].enc.buf, vec![1, 1]);
    assert!(server.clients[1].enc.buf.is_empty());
}

#[test]
fn receive_bad_compressed_packet_closes_silently() {
    let mut c = Client::new(1);
    c.connection_state = ConnectionState::Play;
    c.set_compression(Some((16, 6)));
    let e = c.receive(&[4, 20, 1, 2, 3]);
    assert_eq!(e, Some(PacketError::DecompressionFailure));
    assert!(c.closed);
    assert!(c.take_outgoing().is_empty());
}

#[test]
fn broadcast_skips_connections_not_playing() {
    let mut server = Server::new(String::from("{}"), None);
    server.add_client(1, playing(1));
    server.add_client(2, Client::new(2));
    let packet = UncompressedPacket::new(1, vec![]);
    server.broadcast_packet(2, &packet);
    assert_eq!(server.clients[0].enc.buf, vec![1, 1]);
    assert_eq!(server.clients[1].enc.buf, vec![1, 1]);
    server.broadcast_packet_expect(&[], &packet);
    assert_eq!(server.clients[0].enc.buf, vec![1, 1, 1, 1]);
    assert_eq!(server.clients[1].enc.buf, vec![1, 1]);
}

#[test]
fn add_and_remove_clients() {
    let mut server = Server::new(String::from("{}"), None);
    server.add_client(1, playing(1));
    server.add_client(2, playing(2));
    server.add_client(1, Client::new(99));
    assert_eq!(server.clients.len(), 2);
    assert_eq!(server.clients[0].connection_state, ConnectionState::HandShake);
    assert_eq!(server.clients[0].token, 1);
    assert_eq!(server.index_of(2), Some(1));
    assert_eq!(server.index_of(3), None);
    let (gone, _) = server.remove_client(3);
    assert!(gone.is_none());
    let (gone, _) = server.remove_client(1);
    assert_eq!(gone.unwrap().token, 1);
    assert_eq!(server.clients.len(), 1);
    assert_eq!(server.index_of(1), None);
}

#[test]
fn entity_ids_and_despawn() {
    let mut server = Server::new(String::from("{}"), None);
    server.add_client(1, playing(1));
    server.add_client(2, playing(2));
    assert_eq!(server.spawn_player(1), Some(2));
    assert_eq!(server.spawn_player(2), Some(3));
    assert_eq!(server.spawn_player(7), None);
    assert_eq!(server.new_entity_id(), 4);
    assert_eq!(server.get_by_entityid(1, 3).unwrap().token, 2);
    assert!(server.get_by_entityid(2, 3).is_none());
    assert!(server.get_by_entityid(1, 9).is_none());
    let (gone, _) = server.remove_client(1);
    assert_eq!(gone.unwrap().entity_id, Some(2));
    let expected = {
        let p = remove_entities(&[2]);
        let mut body = vec![0x42];
        body.extend(p.data);
        let mut f = vec![body.len() as u8];
        f.extend(body);
        f
    };
    assert_eq!(server.clients[0].enc.buf, expected);
}

#[test]
fn entity_id_counter_wraps() {
    let mut server = Server::new(String::from("{}"), None);
    server.entity_id = i32::MAX;
    assert_eq!(server.new_entity_id(), i32::MAX);
    assert_eq!(server.new_entity_id(), i32::MIN);
}

#[test]
fn brand_bytes() {
    let brand = Server::build_brand();
    assert_eq!(brand, b"\x07Pumpkin".to_vec());
    let mut server = Server::new(String::from("{}"), None);
    server.add_client(4, Client::new(4));
    server.send_brand(4);
    let mut expected_body = vec![0x01, 15];
    expected_body.extend_from_slice(b"minecraft:brand");
    expected_body.extend_from_slice(b"\x07Pumpkin");
    let mut expected = vec![expected_body.len() as u8];
    expected.extend(expected_body);
    assert_eq!(server.clients[0].enc.buf, expected);
}

#[test]
fn listing_packets() {
    let listing = BikeShedServerListing::new(String::from("{\"a\":1}"));
    let status = listing.get_status();
    assert_eq!(status.id, 0);
    assert_eq!(status.data, b"\x07{\"a\":1}".to_vec());
    let brand = listing.get_branding();
    assert_eq!(brand.id, 1);
    let expected = plugin_message("minecraft:brand", &b"\x07Pumpkin".to_vec());
    assert_eq!(brand.data, expected.data);
}

#[test]
fn clientbound_builders() {
    let pong = ping_response(-2);
    assert_eq!(pong.id, 1);
    assert_eq!(pong.data, (-2i64).to_be_bytes().to_vec());
    let sc = set_compression(256);
    assert_eq!((sc.id, sc.data), (3, vec![0x80, 0x02]));
    let re = remove_entities(&[1, 300]);
    assert_eq!(re.data, vec![2, 1, 0xac, 0x02]);
}

#[test]
fn entity_flags() {
    assert_eq!(Flag::OnFire.apply(0, true), 0b1);
    assert_eq!(Flag::Sneaking.apply(0, true), 0b10);
    assert_eq!(Flag::FallFlying.apply(0xff, false), 0xbf);
    assert_eq!(Flag::Sprinting.apply(0b100, true), 0b100);
    assert_eq!(Flag::Glowing.apply(0b0010_0001, false), 0b1);
}

#[test]
fn deserializer_errors_kick() {
    let e = DeserializerError::Malformed;
    assert!(e.is_kick());
    assert_eq!(e.severity(), Severity::Error);
    assert!(e.client_kick_reason().is_none());
}

#[test]
fn outdated_client_disconnect_packet() {
    let mut c = Client::new(1);
    let actions = c.handle_packet(UncompressedPacket::new(0, handshake_data(766, 2))).unwrap();
    let reason = match actions[..] {
        [ClientAction::Disconnect(r)] => r,
        _ => panic!("expected a disconnect"),
    };
    let text = disconnect_text(reason);
    assert_eq!(text, "Client outdated (766), Server uses Minecraft 1.21.1, Protocol 767");
    let packet = c.send_disconnect(reason).unwrap();
    assert_eq!(packet.id, 0);
    let json = "\"Client outdated (766), Server uses Minecraft 1.21.1, Protocol 767\"";
    let mut expected = vec![json.len() as u8];
    expected.extend_from_slice(json.as_bytes());
    assert_eq!(packet.data, expected);
    assert!(c.closed);
    let out = c.take_outgoing();
    assert_eq!(out[1], 0);
    assert_eq!(&out[2..], &expected[..]);

    let quoted = disconnect_packet(ConnectionState::Login, "say \"hi\"").unwrap();
    assert_eq!(quoted.data, b"\x0c\"say \\\"hi\\\"\"".to_vec());
    assert!(disconnect_packet(ConnectionState::Status, "x").is_none());
}

#[test]
fn outdated_server_and_negative_versions() {
    assert_eq!(disconnect_text(DisconnectReason::ServerOutdated), "Server outdated, Server uses Minecraft 1.21.1, Protocol 767");
    assert_eq!(disconnect_text(DisconnectReason::ClientOutdated(-42)), "Client outdated (-42), Server uses Minecraft 1.21.1, Protocol 767");
    assert_eq!(disconnect_text(DisconnectReason::ClientOutdated(i32::MIN)), "Client outdated (-2147483648), Server uses Minecraft 1.21.1, Protocol 767");
    assert_eq!(disconnect_text(DisconnectReason::ClientOutdated(0)), "Client outdated (0), Server uses Minecraft 1.21.1, Protocol 767");
}

#[test]
fn config_and_play_disconnect_packets() {
    let p = disconnect_packet(ConnectionState::Config, "bye").unwrap();
    assert_eq!((p.id, p.data), (0x02, vec![8, 0, 3, b'b', b'y', b'e']));
    let p = disconnect_packet(ConnectionState::Play, "bye").unwrap();
    assert_eq!(p.id, 0x1d);
    let long = "x".repeat(70000);
    assert!(disconnect_packet(ConnectionState::Play, &long).is_none());
}

#[test]
fn login_plugin_response_fields_are_read() {
    let mut c = Client::new(1);
    c.connection_state = ConnectionState::Login;
    assert!(c.handle_packet(UncompressedPacket::new(2, vec![5, 1, 9, 9])).unwrap().is_empty());
    assert_eq!(c.handle_packet(UncompressedPacket::new(2, vec![5])).err(), Some(DeserializerError::Malformed));
    assert_eq!(c.handle_packet(UncompressedPacket::new(2, vec![5, 7])).err(), Some(DeserializerError::Malformed));
    assert!(!c.closed);
}

#[test]
fn configuration_sends_brand_pack_and_known_packs_in_order() {
    let mut server = Server::new(String::from("{}"), None);
    server.add_client(5, Client::new(5));
    server.set_resource_pack(ResourcePackConfig {
        url: String::from("http://example.com/pack.zip"),
        sha1: String::from("abc"),
        force: true,
        prompt_message: String::new(),
    });
    assert!(server.send_configuration(5).is_empty());
    let out = server.clients[0].take_outgoing();
    let mut dec = PacketDecoder::new();
    dec.queue_slice(&out);
    let brand = dec.decode().unwrap().unwrap();
    assert_eq!(brand.id, 0x01);
    assert_eq!(&brand.data[..16], b"\x0fminecraft:brand");
    let pack = dec.decode().unwrap().unwrap();
    assert_eq!(pack.id, 0x09);
    let expected_uuid = uuid::Uuid::new_v3(&uuid::Uuid::NAMESPACE_DNS, b"http://example.com/pack.zip");
    assert_eq!(&pack.data[..16], expected_uuid.as_bytes());
    assert_eq!(&pack.data[pack.data.len() - 2..], &[1, 0]);
    let packs = dec.decode().unwrap().unwrap();
    assert_eq!(packs.id, 0x0e);
    assert_eq!(packs.data, b"\x01\x09minecraft\x04core\x041.21".to_vec());
    assert!(dec.decode().unwrap().is_none());
}

#[test]
fn configuration_without_resource_pack() {
    let mut server = Server::new(String::from("{}"), None);
    server.add_client(5, Client::new(5));
    server.send_configuration(5);
    let out = server.clients[0].take_outgoing();
    let mut dec = PacketDecoder::new();
    dec.queue_slice(&out);
    assert_eq!(dec.decode().unwrap().unwrap().id, 0x01);
    assert_eq!(dec.decode().unwrap().unwrap().id, 0x0e);
    assert!(dec.decode().unwrap().is_none());
}

#[test]
fn login_disconnect_escapes_control_characters() {
    let p = disconnect_packet(ConnectionState::Login, "a\tb\u{1}\\").unwrap();
    let json = "\"a\\tb\\u0001\\\\\"";
    let mut expected = vec![json.len() as u8];
    expected.extend_from_slice(json.as_bytes());
    assert_eq!(p.data, expected);
}

#[test]
fn leaving_player_is_removed_from_the_list_then_despawned() {
    let mut server = Server::new(String::from("{}"), None);
    let mut gone = playing(1);
    gone.gameprofile = Some(pumpkin::client::GameProfile { id: vec![3u8; 16], name: String::from("Alex") });
    server.add_client(1, gone);
    server.add_client(2, playing(2));
    server.spawn_player(1);
    let (left, actions) = server.remove_client(1);
    assert!(left.is_some());
    assert!(actions.is_empty());
    let out = server.clients[0].take_outgoing();
    let mut dec = PacketDecoder::new();
    dec.queue_slice(&out);
    let info = dec.decode().unwrap().unwrap();
    assert_eq!(info.id, 0x3d);
    let mut expected = vec![1u8];
    expected.extend_from_slice(&[3u8; 16]);
    assert_eq!(info.data, expected);
    let entity = dec.decode().unwrap().unwrap();
    assert_eq!((entity.id, entity.data), (0x42, vec![1, 2]));
    assert!(dec.decode().unwrap().is_none());
}
