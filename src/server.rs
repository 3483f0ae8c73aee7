//! The set of live connections, keyed by a token unique to each, and the
//! broadcast layer over it: a packet goes through the encode pipeline of each
//! target, one connection at a time.
use vstd::prelude::*;
use crate::client::{Client, ClientAction};
use crate::client::{all_fit, bodies, frames_of};
use crate::clientbound::{
    add_resource_pack, known_packs, plugin_message, remove_entities, remove_player_info,
    resource_pack_fields, varints, REMOVE_ENTITIES_ID, REMOVE_PLAYER_INFO_ID,
    string_bytes, ADD_RESOURCE_PACK_ID, CONFIG_PLUGIN_MESSAGE_ID, KNOWN_PACKS_ID, MAX_TAG_STRING_LEN,
};
use crate::codec::{UncompressedPacket, MAX_FRAME_LEN};
use crate::varint::varint_bytes;
use crate::pipeline::encoded_frame;
use crate::state::ConnectionState;

use vstd::string::StringSliceAdditionalSpecFns;
use vstd::utf8::encode_utf8;

verus! {

/// The first entity id handed out; 0 is not a valid id.
pub const FIRST_ENTITY_ID: i32 = 2;

/// Whether a packet's body can go out on connection `c` without failing:
/// it fits a frame and, when compression is on, stays below the threshold.
pub open spec fn fits(c: Client, body: Seq<u8>) -> bool {
    body.len() < MAX_FRAME_LEN && (c.enc.compression matches Some((t, _)) ==> body.len() < t)
}

/// `after` is `before` once a packet with body `body` was sent to it: one
/// frame more in its outgoing bytes, or, where encoding failed, nothing more
/// and the session closed.
pub open spec fn delivered(before: Client, after: Client, body: Seq<u8>) -> bool {
    &&& after.token == before.token
    &&& after.connection_state == before.connection_state
    &&& after.entity_id == before.entity_id
    &&& after.dec == before.dec
    &&& after.enc.compression == before.enc.compression
    &&& after.wf()
    &&& ((after.enc.buf@ == before.enc.buf@ + encoded_frame(before.enc.compression, body)
        && after.closed == before.closed) || (after.enc.buf@ == before.enc.buf@ && after.closed))
    &&& fits(before, body) ==> after.enc.buf@ == before.enc.buf@ + encoded_frame(
        before.enc.compression,
        body,
    ) && after.closed == before.closed
}

/// Whether `c` gets a broadcast that leaves out the connections `exclude`:
/// it plays, is not closed, and is not left out.
pub open spec fn broadcast_target(c: Client, exclude: Seq<u32>) -> bool {
    c.connection_state == ConnectionState::Play && !c.closed && !exclude.contains(c.token)
}

/// Whether `c` gets a broadcast sent from connection `from`: `from` itself
/// and every playing connection do, unless closed.
pub open spec fn sends_to(c: Client, from: u32) -> bool {
    !c.closed && (c.token == from || c.connection_state == ConnectionState::Play)
}

/// The server brand as the brand plugin message carries it: the string
/// "Pumpkin", whose bytes these are.
pub open spec fn brand_bytes() -> Seq<u8> {
    string_bytes(seq![80u8, 117, 109, 112, 107, 105, 110])
}

pub struct Server {
    /// The live connections; no two share a token.
    pub clients: Vec<Client>,
    /// The next entity id to hand out.
    pub entity_id: i32,
    /// The brand payload, built once.
    pub cached_server_brand: Vec<u8>,
    /// The status response, serialised once.
    pub status_response_json: String,
    /// The compression threshold and level given to each new player, or none.
    pub compression: Option<(u32, u32)>,
    /// The resource pack offered during configuration, if any.
    pub resource_pack: Option<ResourcePackConfig>,
}

/// A resource pack the server offers: where it is, its SHA-1, whether the
/// client must take it, and the prompt shown (none when empty).
pub struct ResourcePackConfig {
    pub url: String,
    pub sha1: String,
    pub force: bool,
    pub prompt_message: String,
}

impl ResourcePackConfig {
    pub open spec fn wf(&self) -> bool {
        &&& encode_utf8(self.url@).len() <= MAX_FRAME_LEN
        &&& encode_utf8(self.sha1@).len() <= MAX_FRAME_LEN
        &&& encode_utf8(self.prompt_message@).len() <= MAX_TAG_STRING_LEN
    }

    /// The body of the packet that offers this pack.
    pub open spec fn packet_body(&self) -> Seq<u8> {
        crate::codec::packet_body(
            ADD_RESOURCE_PACK_ID,
            resource_pack_fields(
                uuid_v3_dns(encode_utf8(self.url@)),
                encode_utf8(self.url@),
                encode_utf8(self.sha1@),
                self.force,
                encode_utf8(self.prompt_message@),
            ),
        )
    }
}

/// The name-based (version 3) UUID of `name` in the DNS namespace.
pub uninterp spec fn uuid_v3_dns(name: Seq<u8>) -> Seq<u8>;

/// Relies on uuid's `Uuid::new_v3` with `Uuid::NAMESPACE_DNS`, and on
/// `as_bytes`, whose result is the UUID's 16 bytes.
#[verifier::external_body]
fn resource_pack_uuid(url: &str) -> (r: Vec<u8>)
    ensures
        r@ == uuid_v3_dns(url.spec_bytes()),
        r@.len() == 16,
{
    uuid::Uuid::new_v3(&uuid::Uuid::NAMESPACE_DNS, url.as_bytes()).as_bytes().to_vec()
}

/// The bytes of "minecraft", "core" and "1.21", the one data pack the
/// server knows.
pub open spec fn minecraft_bytes() -> Seq<u8> {
    seq![109u8, 105, 110, 101, 99, 114, 97, 102, 116]
}

pub open spec fn core_bytes() -> Seq<u8> {
    seq![99u8, 111, 114, 101]
}

pub open spec fn pack_version_bytes() -> Seq<u8> {
    seq![49u8, 46, 50, 49]
}

/// The body of the known-packs packet the server sends.
pub open spec fn known_packs_body() -> Seq<u8> {
    crate::codec::packet_body(
        KNOWN_PACKS_ID,
        seq![1u8] + string_bytes(minecraft_bytes()) + string_bytes(core_bytes()) + string_bytes(
            pack_version_bytes(),
        ),
    )
}

impl Server {
    pub open spec fn wf(&self) -> bool {
        &&& self.resource_pack matches Some(c) ==> c.wf()
        &&& forall|i: int, j: int|
            0 <= i < j < self.clients@.len() ==> #[trigger] self.clients@[i].token
                != #[trigger] self.clients@[j].token
        &&& forall|i: int| 0 <= i < self.clients@.len() ==> #[trigger] self.clients@[i].wf()
        &&& self.compression matches Some((_, level)) ==> level <= 9
    }

    pub open spec fn tokens(&self) -> Seq<u32> {
        self.clients@.map_values(|c: Client| c.token)
    }

    pub open spec fn next_entity_id(&self) -> i32 {
        self.entity_id
    }

    pub fn new(status_response_json: String, compression: Option<(u32, u32)>) -> (r: Server)
        requires
            compression matches Some((_, level)) ==> level <= 9,
        ensures
            r.wf(),
            r.clients@.len() == 0,
            r.next_entity_id() == FIRST_ENTITY_ID,
            r.cached_server_brand@ == brand_bytes(),
            r.status_response_json@ == status_response_json@,
            r.compression == compression,
            r.resource_pack is None,
    {
        Server {
            clients: Vec::new(),
            entity_id: FIRST_ENTITY_ID,
            cached_server_brand: Server::build_brand(),
            status_response_json,
            compression,
            resource_pack: None,
        }
    }

    /// Offers `pack` during configuration from now on.
    pub fn set_resource_pack(&mut self, pack: ResourcePackConfig)
        requires
            old(self).wf(),
            pack.wf(),
        ensures
            final(self).wf(),
            final(self).resource_pack == Some(pack),
            final(self).clients == old(self).clients,
            final(self).compression == old(self).compression,
            final(self).cached_server_brand == old(self).cached_server_brand,
    {
        self.resource_pack = Some(pack);
    }

    /// The bodies of what configuration sends, in order: the brand, the
    /// resource pack when one is offered, the known packs.
    pub open spec fn configuration_bodies(&self) -> Seq<Seq<u8>> {
        seq![brand_packet_body(self.cached_server_brand@)] + match self.resource_pack {
            Some(c) => seq![c.packet_body()],
            None => Seq::empty(),
        } + seq![known_packs_body()]
    }

    /// The brand payload: the name "Pumpkin" as a protocol string.
    pub fn build_brand() -> (r: Vec<u8>)
        ensures
            r@ == brand_bytes(),
    {
        let brand = "Pumpkin";
        proof {
            reveal_strlit("Pumpkin");
            vstd::string::is_ascii_spec_bytes(brand);
            assert(vstd::string::is_ascii(brand));
            assert(brand.spec_bytes() =~= seq![80u8, 117, 109, 112, 107, 105, 110]);
        }
        let mut buf: Vec<u8> = Vec::new();
        crate::clientbound::write_string(&mut buf, brand);
        buf
    }

    /// The position of the connection with token `token`, if it is live.
    pub fn index_of(&self, token: u32) -> (r: Option<usize>)
        ensures
            r matches Some(i) ==> i < self.clients@.len() && self.clients@[i as int].token == token,
            r is None ==> forall|i: int| 0 <= i < self.clients@.len() ==> #[trigger] self.clients@[i].token != token,
    {
        let mut i: usize = 0;
        while i < self.clients.len()
            invariant
                i <= self.clients@.len(),
                forall|j: int| 0 <= j < i ==> #[trigger] self.clients@[j].token != token,
            decreases self.clients@.len() - i,
        {
            if self.clients[i].token == token {
                return Some(i);
            }
            i = i + 1;
        }
        None
    }

    /// Adds a connection under `token`, in place of one that had it.
    pub fn add_client(&mut self, token: u32, client: Client)
        requires
            old(self).wf(),
            client.wf(),
        ensures
            final(self).wf(),
            final(self).tokens().contains(token),
            forall|t: u32| t != token ==> (final(self).tokens().contains(t) <==> old(self).tokens().contains(t)),
            exists|i: int| 0 <= i < final(self).clients@.len() && final(self).clients@[i] == (Client { token, ..client }),
            forall|i: int| 0 <= i < old(self).clients@.len() && #[trigger] old(self).clients@[i].token != token
                ==> final(self).clients@.contains(old(self).clients@[i]),
            final(self).compression == old(self).compression,
            final(self).next_entity_id() == old(self).next_entity_id(),
    {
        let mut client = client;
        client.token = token;
        let ghost old_tokens = self.tokens();
        match self.index_of(token) {
            Some(i) => {
                let _old = self.clients.remove(i);
                self.clients.insert(i, client);
                assert(self.clients@ =~= old(self).clients@.update(i as int, client));
                assert(self.tokens() =~= old_tokens.update(i as int, token));
                assert(self.tokens()[i as int] == token);
                assert(self.clients@[i as int] == client);
                assert forall|j: int| 0 <= j < old(self).clients@.len() && #[trigger] old(self).clients@[j].token != token
                    implies self.clients@.contains(old(self).clients@[j]) by {
                    assert(self.clients@[j] == old(self).clients@[j]);
                }
            },
            None => {
                self.clients.push(client);
                assert(self.tokens() =~= old_tokens.push(token));
                assert(self.tokens()[self.tokens().len() - 1] == token);
                assert(self.clients@[self.clients@.len() - 1] == client);
                assert forall|j: int| 0 <= j < old(self).clients@.len() && #[trigger] old(self).clients@[j].token != token
                    implies self.clients@.contains(old(self).clients@[j]) by {
                    assert(self.clients@[j] == old(self).clients@[j]);
                }
            },
        }
        assert forall|t: u32| t != token implies (self.tokens().contains(t) <==> old_tokens.contains(t)) by {
            if self.tokens().contains(t) {
                let k = choose|k: int| 0 <= k < self.tokens().len() && self.tokens()[k] == t;
                assert(old_tokens[k] == t);
            }
            if old_tokens.contains(t) {
                let k = choose|k: int| 0 <= k < old_tokens.len() && old_tokens[k] == t;
                assert(self.tokens()[k] == t);
            }
        }
    }

    /// Hands out a new entity id; ids wrap around as a 32-bit counter does.
    pub fn new_entity_id(&mut self) -> (r: i32)
        ensures
            r == old(self).next_entity_id(),
            final(self).next_entity_id() == old(self).next_entity_id().wrapping_add(1),
            final(self).clients == old(self).clients,
            final(self).compression == old(self).compression,
            final(self).cached_server_brand == old(self).cached_server_brand,
            final(self).resource_pack == old(self).resource_pack,
    {
        let id = self.entity_id;
        self.entity_id = id.wrapping_add(1);
        id
    }

    /// Sends `packet` to every playing connection whose token is not in
    /// `exclude`, each exactly once; the others, and those already closed,
    /// are left as they were. A
    /// connection whose encoding fails is kicked, and the kick's actions are
    /// handed back with its token.
    pub fn broadcast_packet_expect(&mut self, exclude: &[u32], packet: &UncompressedPacket) -> (r: Vec<(u32, ClientAction)>)
        requires
            old(self).wf(),
        ensures
            final(self).wf(),
            final(self).clients@.len() == old(self).clients@.len(),
            final(self).compression == old(self).compression,
            final(self).next_entity_id() == old(self).next_entity_id(),
            forall|i: int| 0 <= i < old(self).clients@.len() ==> (if broadcast_target(
                #[trigger] old(self).clients@[i],
                exclude@,
            ) {
                delivered(old(self).clients@[i], final(self).clients@[i], packet.body())
            } else {
                final(self).clients@[i] == old(self).clients@[i]
            }),
            (forall|i: int| 0 <= i < old(self).clients@.len() && broadcast_target(#[trigger] old(self).clients@[i], exclude@) ==> fits(old(self).clients@[i], packet.body())) ==> r@.len() == 0,
    {
        let mut actions: Vec<(u32, ClientAction)> = Vec::new();
        let mut i: usize = 0;
        while i < self.clients.len()
            invariant
                (forall|j: int| 0 <= j < old(self).clients@.len() && broadcast_target(#[trigger] old(self).clients@[j], exclude@) ==> fits(old(self).clients@[j], packet.body())) ==> actions@.len() == 0,
                i <= self.clients@.len(),
                self.clients@.len() == old(self).clients@.len(),
                self.compression == old(self).compression,
                self.resource_pack == old(self).resource_pack,
                self.entity_id == old(self).entity_id,
                old(self).wf(),
                forall|j: int| 0 <= j < self.clients@.len() ==> #[trigger] self.clients@[j].wf(),
                forall|j: int| 0 <= j < self.clients@.len() ==> #[trigger] self.clients@[j].token == old(self).clients@[j].token,
                forall|j: int| i <= j < self.clients@.len() ==> #[trigger] self.clients@[j] == old(self).clients@[j],
                forall|j: int| 0 <= j < i ==> (if broadcast_target(
                    #[trigger] old(self).clients@[j],
                    exclude@,
                ) {
                    delivered(old(self).clients@[j], self.clients@[j], packet.body())
                } else {
                    self.clients@[j] == old(self).clients@[j]
                }),
            decreases self.clients@.len() - i,
        {
            let target = self.clients[i].connection_state == ConnectionState::Play
                && !self.clients[i].closed && !slice_contains(exclude, self.clients[i].token);
            if target {
                let ghost before = self.clients@;
                let mut client = self.clients.remove(i);
                let mut sent = client.send_packet(packet);
                let token = client.token;
                self.clients.insert(i, client);
                assert(self.clients@ =~= before.update(i as int, client));
                tag_actions(token, sent, &mut actions);
            }
            i = i + 1;
        }
        actions
    }

    /// Sends `packet` to the connection `from` and to every other playing
    /// connection, each exactly once, skipping those already closed.
    pub fn broadcast_packet(&mut self, from: u32, packet: &UncompressedPacket) -> (r: Vec<(u32, ClientAction)>)
        requires
            old(self).wf(),
        ensures
            final(self).wf(),
            final(self).clients@.len() == old(self).clients@.len(),
            final(self).compression == old(self).compression,
            final(self).next_entity_id() == old(self).next_entity_id(),
            forall|i: int| 0 <= i < old(self).clients@.len() ==> (if sends_to(#[trigger] old(self).clients@[i], from) {
                delivered(old(self).clients@[i], final(self).clients@[i], packet.body())
            } else {
                final(self).clients@[i] == old(self).clients@[i]
            }),
            (forall|i: int| 0 <= i < old(self).clients@.len() && sends_to(#[trigger] old(self).clients@[i], from) ==> fits(old(self).clients@[i], packet.body())) ==> r@.len() == 0,
    {
        let mut actions: Vec<(u32, ClientAction)> = Vec::new();
        let mut i: usize = 0;
        while i < self.clients.len()
            invariant
                (forall|j: int| 0 <= j < old(self).clients@.len() && sends_to(#[trigger] old(self).clients@[j], from) ==> fits(old(self).clients@[j], packet.body())) ==> actions@.len() == 0,
                i <= self.clients@.len(),
                self.clients@.len() == old(self).clients@.len(),
                self.compression == old(self).compression,
                self.resource_pack == old(self).resource_pack,
                self.entity_id == old(self).entity_id,
                old(self).wf(),
                forall|j: int| 0 <= j < self.clients@.len() ==> #[trigger] self.clients@[j].wf(),
                forall|j: int| 0 <= j < self.clients@.len() ==> #[trigger] self.clients@[j].token == old(self).clients@[j].token,
                forall|j: int| i <= j < self.clients@.len() ==> #[trigger] self.clients@[j] == old(self).clients@[j],
                forall|j: int| 0 <= j < i ==> (if sends_to(#[trigger] old(self).clients@[j], from) {
                    delivered(old(self).clients@[j], self.clients@[j], packet.body())
                } else {
                    self.clients@[j] == old(self).clients@[j]
                }),
            decreases self.clients@.len() - i,
        {
            if !self.clients[i].closed && (self.clients[i].token == from
                || self.clients[i].connection_state == ConnectionState::Play) {
                let ghost before = self.clients@;
                let mut client = self.clients.remove(i);
                let ghost old_client = client;
                let mut sent = client.send_packet(packet);
                let token = client.token;
                self.clients.insert(i, client);
                assert(self.clients@ =~= before.update(i as int, client));
                assert(old_client == old(self).clients@[i as int]);
                assert(delivered(old(self).clients@[i as int], self.clients@[i as int], packet.body()));
                tag_actions(token, sent, &mut actions);
            }
            i = i + 1;
        }
        actions
    }
}

impl Server {
    /// The playing connection, other than `from`, whose player has entity id `id`.
    pub fn get_by_entityid(&self, from: u32, id: i32) -> (r: Option<&Client>)
        ensures
            r matches Some(c) ==> c.token != from && c.connection_state == ConnectionState::Play
                && c.entity_id == Some(id) && self.clients@.contains(*c),
            r is None ==> forall|i: int|
                0 <= i < self.clients@.len() ==> !(#[trigger] self.clients@[i].token != from
                    && self.clients@[i].connection_state == ConnectionState::Play
                    && self.clients@[i].entity_id == Some(id)),
    {
        let mut i: usize = 0;
        while i < self.clients.len()
            invariant
                i <= self.clients@.len(),
                forall|j: int|
                    0 <= j < i ==> !(#[trigger] self.clients@[j].token != from
                        && self.clients@[j].connection_state == ConnectionState::Play
                        && self.clients@[j].entity_id == Some(id)),
            decreases self.clients@.len() - i,
        {
            let c = &self.clients[i];
            if c.token != from && c.connection_state == ConnectionState::Play && c.entity_id == Some(id) {
                assert(self.clients@[i as int] == *c);
                return Some(c);
            }
            i = i + 1;
        }
        None
    }

    /// Gives the player of connection `token` a new entity id.
    pub fn spawn_player(&mut self, token: u32) -> (r: Option<i32>)
        requires
            old(self).wf(),
        ensures
            final(self).wf(),
            final(self).tokens() == old(self).tokens(),
            r is Some <==> old(self).tokens().contains(token),
            r matches Some(id) ==> id == old(self).next_entity_id() && final(self).next_entity_id()
                == old(self).next_entity_id().wrapping_add(1),
            forall|i: int| 0 <= i < old(self).clients@.len() ==> (if #[trigger] old(self).clients@[i].token == token {
                final(self).clients@[i].entity_id == Some(old(self).next_entity_id())
                    && final(self).clients@[i].connection_state == old(self).clients@[i].connection_state
                    && final(self).clients@[i].enc == old(self).clients@[i].enc
            } else {
                final(self).clients@[i] == old(self).clients@[i]
            }),
    {
        let i = match self.index_of(token) {
            Some(i) => i,
            None => {
                proof {
                    if old(self).tokens().contains(token) {
                        let k = choose|k: int| 0 <= k < old(self).tokens().len() && old(self).tokens()[k] == token;
                        assert(self.clients@[k].token == token);
                    }
                }
                return None;
            },
        };
        assert(self.tokens()[i as int] == token);
        let id = self.new_entity_id();
        let ghost before = self.clients@;
        assert(old(self).clients@[i as int].wf());
        let mut client = self.clients.remove(i);
        client.entity_id = Some(id);
        self.clients.insert(i, client);
        assert(self.clients@ =~= before.update(i as int, client));
        assert(forall|j: int| 0 <= j < self.clients@.len() ==> #[trigger] self.clients@[j].token == old(self).clients@[j].token);
        assert(forall|j: int| 0 <= j < self.clients@.len() ==> #[trigger] self.clients@[j].wf());
        assert(self.tokens() =~= old(self).tokens());
        Some(id)
    }

    /// Sends the server brand to connection `token`.
    pub fn send_brand(&mut self, token: u32) -> (r: Vec<(u32, ClientAction)>)
        requires
            old(self).wf(),
        ensures
            final(self).wf(),
            final(self).clients@.len() == old(self).clients@.len(),
            final(self).cached_server_brand == old(self).cached_server_brand,
            forall|i: int| 0 <= i < old(self).clients@.len() ==> (if #[trigger] old(self).clients@[i].token == token {
                delivered(old(self).clients@[i], final(self).clients@[i], brand_packet_body(old(self).cached_server_brand@))
            } else {
                final(self).clients@[i] == old(self).clients@[i]
            }),
            (forall|i: int| 0 <= i < old(self).clients@.len() && #[trigger] old(self).clients@[i].token == token ==> fits(old(self).clients@[i], brand_packet_body(old(self).cached_server_brand@))) ==> r@.len() == 0,
    {
        let ghost brand = self.cached_server_brand@;
        let channel = "minecraft:brand";
        proof {
            reveal_strlit("minecraft:brand");
            vstd::string::is_ascii_spec_bytes(channel);
            assert(vstd::string::is_ascii(channel));
            assert(channel.spec_bytes() =~= brand_channel_bytes());
        }
        let packet = plugin_message(channel, &self.cached_server_brand);
        assert(packet.body() == brand_packet_body(brand));
        let mut actions: Vec<(u32, ClientAction)> = Vec::new();
        let mut i: usize = 0;
        while i < self.clients.len()
            invariant
                (forall|j: int| 0 <= j < old(self).clients@.len() && #[trigger] old(self).clients@[j].token == token ==> fits(old(self).clients@[j], brand_packet_body(brand))) ==> actions@.len() == 0,
                i <= self.clients@.len(),
                self.clients@.len() == old(self).clients@.len(),
                self.compression == old(self).compression,
                self.resource_pack == old(self).resource_pack,
                self.cached_server_brand == old(self).cached_server_brand,
                packet.body() == brand_packet_body(brand),
                brand == old(self).cached_server_brand@,
                old(self).wf(),
                forall|j: int| 0 <= j < self.clients@.len() ==> #[trigger] self.clients@[j].wf(),
                forall|j: int| 0 <= j < self.clients@.len() ==> #[trigger] self.clients@[j].token == old(self).clients@[j].token,
                forall|j: int| i <= j < self.clients@.len() ==> #[trigger] self.clients@[j] == old(self).clients@[j],
                forall|j: int| 0 <= j < i ==> (if #[trigger] old(self).clients@[j].token == token {
                    delivered(old(self).clients@[j], self.clients@[j], brand_packet_body(brand))
                } else {
                    self.clients@[j] == old(self).clients@[j]
                }),
            decreases self.clients@.len() - i,
        {
            if self.clients[i].token == token {
                let ghost before = self.clients@;
                let mut client = self.clients.remove(i);
                let mut sent = client.send_packet(&packet);
                self.clients.insert(i, client);
                assert(self.clients@ =~= before.update(i as int, client));
                tag_actions(token, sent, &mut actions);
            }
            i = i + 1;
        }
        actions
    }

    /// Removes connection `token` from the live set. When it was a player, the
    /// remaining players are told to remove its entity.
    pub fn remove_client(&mut self, token: u32) -> (r: (Option<Client>, Vec<(u32, ClientAction)>))
        requires
            old(self).wf(),
        ensures
            final(self).wf(),
            !final(self).tokens().contains(token),
            forall|t: u32| t != token ==> (final(self).tokens().contains(t) <==> old(self).tokens().contains(t)),
            r.0 is Some <==> old(self).tokens().contains(token),
            r.0 is None ==> *final(self) == *old(self),
            r.0 matches Some(gone) ==> exists|k: int|
                0 <= k < old(self).clients@.len() && #[trigger] old(self).clients@[k] == gone
                    && removed_from(old(self).clients@, final(self).clients@, k, gone),
    {
        let i = match self.index_of(token) {
            Some(i) => i,
            None => {
                proof {
                    assert forall|t: u32| t != token implies (self.tokens().contains(t) <==> old(self).tokens().contains(t)) by {}
                    if old(self).tokens().contains(token) {
                        let k = choose|k: int| 0 <= k < old(self).tokens().len() && old(self).tokens()[k] == token;
                        assert(self.clients@[k].token == token);
                    }
                }
                return (None, Vec::new());
            },
        };
        assert(old(self).tokens()[i as int] == token);
        let ghost before = self.tokens();
        let removed = self.clients.remove(i);
        let ghost after_remove = self.clients@;
        assert(self.tokens() =~= before.remove(i as int));
        assert forall|t: u32| t != token implies (self.tokens().contains(t) <==> before.contains(t)) by {
            if before.contains(t) {
                let k = choose|k: int| 0 <= k < before.len() && before[k] == t;
                if k < i {
                    assert(self.tokens()[k] == t);
                } else {
                    assert(k != i);
                    assert(self.tokens()[k - 1] == t);
                }
            }
        }
        assert(!self.tokens().contains(token)) by {
            if self.tokens().contains(token) {
                let k = choose|k: int| 0 <= k < self.tokens().len() && self.tokens()[k] == token;
                if k < i {
                    assert(old(self).clients@[k].token == token);
                } else {
                    assert(old(self).clients@[k + 1].token == token);
                }
            }
        }
        let mut actions: Vec<(u32, ClientAction)> = Vec::new();
        if removed.connection_state == ConnectionState::Play && removed.entity_id.is_some() {
            let mut packets: Vec<UncompressedPacket> = Vec::new();
            if let Some(profile) = &removed.gameprofile {
                packets.push(remove_player_info(&profile.id));
            }
            let mut ids: Vec<i32> = Vec::new();
            ids.push(removed.entity_id.unwrap());
            assert(ids@ =~= seq![removed.entity_id->0]);
            let entity = remove_entities(ids.as_slice());
            assert(entity.body() == crate::codec::packet_body(
                REMOVE_ENTITIES_ID,
                varint_bytes(1) + varints(seq![removed.entity_id->0]),
            ));
            packets.push(entity);
            assert(bodies(packets@) =~= despawn_bodies(removed));
            let ghost mid = self.tokens();
            let ghost mid_clients = self.clients@;
            let exclude: Vec<u32> = vec![token];
            assert(exclude@ =~= seq![token]);
            actions = self.broadcast_packets_expect(exclude.as_slice(), &packets);
            assert(self.tokens() =~= mid) by {
                assert forall|k: int| 0 <= k < self.tokens().len() implies self.tokens()[k] == mid[k] by {
                    assert(self.clients@[k].token == mid_clients[k].token);
                }
            }
        }
        assert forall|j: int| 0 <= j < self.clients@.len() implies despawned(
            old(self).clients@[if j < i { j } else { j + 1 }],
            #[trigger] self.clients@[j],
            removed,
            token,
        ) by {
            assert(after_remove[j] == old(self).clients@[if j < i { j } else { j + 1 }]);
        }
        (Some(removed), actions)
    }
}

/// What the players left see when `gone` leaves: its player-list entry
/// removed (when it has a profile), then its entity.
pub open spec fn despawn_bodies(gone: Client) -> Seq<Seq<u8>> {
    let entity = crate::codec::packet_body(
        REMOVE_ENTITIES_ID,
        varint_bytes(1) + varints(seq![gone.entity_id->0]),
    );
    match gone.gameprofile {
        Some(p) => seq![crate::codec::packet_body(REMOVE_PLAYER_INFO_ID, seq![1u8] + p.id@), entity],
        None => seq![entity],
    }
}

/// `after` is `before` once connection `token`, whose session was `gone`,
/// left: where `gone` was a player, `before` got the despawn packets as a
/// broadcast that leaves out `token`; otherwise nothing changed.
pub open spec fn despawned(before: Client, after: Client, gone: Client, token: u32) -> bool {
    if gone.connection_state == ConnectionState::Play && gone.entity_id is Some && broadcast_target(
        before,
        seq![token],
    ) {
        delivered_all(before, after, despawn_bodies(gone))
    } else {
        after == before
    }
}

/// `after` is `before` without its entry `k`, which was `gone`, the others
/// having seen `gone` leave.
pub open spec fn removed_from(before: Seq<Client>, after: Seq<Client>, k: int, gone: Client) -> bool {
    &&& after.len() == before.len() - 1
    &&& forall|j: int|
        0 <= j < after.len() ==> despawned(
            before[if j < k { j } else { j + 1 }],
            #[trigger] after[j],
            gone,
            gone.token,
        )
}

/// `after` is `before` once `bodies` were sent to it in order: all of their
/// frames added to its outgoing bytes, or, where encoding failed, the session
/// closed.
pub open spec fn delivered_all(before: Client, after: Client, bodies: Seq<Seq<u8>>) -> bool {
    &&& after == (Client { enc: after.enc, closed: after.closed, ..before })
    &&& after.wf()
    &&& after.enc.compression == before.enc.compression
    &&& (after.enc.buf@ == before.enc.buf@ + frames_of(before.enc.compression, bodies)
        && after.closed == before.closed) || after.closed
    &&& all_fit(before.enc.compression, bodies) ==> after.enc.buf@ == before.enc.buf@ + frames_of(
        before.enc.compression,
        bodies,
    ) && after.closed == before.closed
}

impl Server {
    /// Sends `packets`, in order, to every playing connection whose token is
    /// not in `exclude`, unless closed; the others are left as they were.
    pub fn broadcast_packets_expect(&mut self, exclude: &[u32], packets: &Vec<UncompressedPacket>) -> (r: Vec<(u32, ClientAction)>)
        requires
            old(self).wf(),
        ensures
            final(self).wf(),
            final(self).clients@.len() == old(self).clients@.len(),
            final(self).compression == old(self).compression,
            final(self).resource_pack == old(self).resource_pack,
            final(self).cached_server_brand == old(self).cached_server_brand,
            final(self).next_entity_id() == old(self).next_entity_id(),
            forall|i: int| 0 <= i < old(self).clients@.len() ==> (if broadcast_target(
                #[trigger] old(self).clients@[i],
                exclude@,
            ) {
                delivered_all(old(self).clients@[i], final(self).clients@[i], bodies(packets@))
            } else {
                final(self).clients@[i] == old(self).clients@[i]
            }),
    {
        let mut actions: Vec<(u32, ClientAction)> = Vec::new();
        let mut i: usize = 0;
        while i < self.clients.len()
            invariant
                i <= self.clients@.len(),
                self.clients@.len() == old(self).clients@.len(),
                self.compression == old(self).compression,
                self.resource_pack == old(self).resource_pack,
                self.cached_server_brand == old(self).cached_server_brand,
                self.entity_id == old(self).entity_id,
                old(self).wf(),
                forall|j: int| 0 <= j < self.clients@.len() ==> #[trigger] self.clients@[j].wf(),
                forall|j: int| 0 <= j < self.clients@.len() ==> #[trigger] self.clients@[j].token == old(self).clients@[j].token,
                forall|j: int| i <= j < self.clients@.len() ==> #[trigger] self.clients@[j] == old(self).clients@[j],
                forall|j: int| 0 <= j < i ==> (if broadcast_target(
                    #[trigger] old(self).clients@[j],
                    exclude@,
                ) {
                    delivered_all(old(self).clients@[j], self.clients@[j], bodies(packets@))
                } else {
                    self.clients@[j] == old(self).clients@[j]
                }),
            decreases self.clients@.len() - i,
        {
            let target = self.clients[i].connection_state == ConnectionState::Play
                && !self.clients[i].closed && !slice_contains(exclude, self.clients[i].token);
            if target {
                let ghost before = self.clients@;
                let mut client = self.clients.remove(i);
                let sent = client.send_all(packets);
                let token = client.token;
                self.clients.insert(i, client);
                assert(self.clients@ =~= before.update(i as int, client));
                tag_actions(token, sent, &mut actions);
            }
            i = i + 1;
        }
        actions
    }

    /// Starts configuration for connection `token`: sends it the brand, then
    /// the resource pack when one is offered, then the known packs.
    pub fn send_configuration(&mut self, token: u32) -> (r: Vec<(u32, ClientAction)>)
        requires
            old(self).wf(),
        ensures
            final(self).wf(),
            final(self).clients@.len() == old(self).clients@.len(),
            final(self).cached_server_brand == old(self).cached_server_brand,
            final(self).resource_pack == old(self).resource_pack,
            final(self).compression == old(self).compression,
            forall|i: int| 0 <= i < old(self).clients@.len() ==> (if #[trigger] old(self).clients@[i].token == token {
                delivered_all(old(self).clients@[i], final(self).clients@[i], old(self).configuration_bodies())
            } else {
                final(self).clients@[i] == old(self).clients@[i]
            }),
            (forall|i: int| 0 <= i < old(self).clients@.len() && #[trigger] old(self).clients@[i].token == token
                ==> all_fit(old(self).clients@[i].enc.compression, old(self).configuration_bodies()))
                ==> r@.len() == 0,
    {
        let channel = "minecraft:brand";
        let ns = "minecraft";
        let id = "core";
        let version = "1.21";
        proof {
            reveal_strlit("minecraft:brand");
            reveal_strlit("minecraft");
            reveal_strlit("core");
            reveal_strlit("1.21");
            vstd::string::is_ascii_spec_bytes(channel);
            vstd::string::is_ascii_spec_bytes(ns);
            vstd::string::is_ascii_spec_bytes(id);
            vstd::string::is_ascii_spec_bytes(version);
            assert(vstd::string::is_ascii(channel) && vstd::string::is_ascii(ns));
            assert(vstd::string::is_ascii(id) && vstd::string::is_ascii(version));
            assert(channel.spec_bytes() =~= brand_channel_bytes());
            assert(ns.spec_bytes() =~= minecraft_bytes());
            assert(id.spec_bytes() =~= core_bytes());
            assert(version.spec_bytes() =~= pack_version_bytes());
        }
        let mut packets: Vec<UncompressedPacket> = Vec::new();
        packets.push(plugin_message(channel, &self.cached_server_brand));
        if let Some(pack) = &self.resource_pack {
            let uuid = resource_pack_uuid(pack.url.as_str());
            packets.push(add_resource_pack(
                &uuid,
                pack.url.as_str(),
                pack.sha1.as_str(),
                pack.force,
                pack.prompt_message.as_str(),
            ));
        }
        packets.push(known_packs(ns, id, version));
        assert(bodies(packets@) =~= self.configuration_bodies());
        let i = match self.index_of(token) {
            Some(i) => i,
            None => return Vec::new(),
        };
        assert(old(self).clients@[i as int].wf());
        let ghost before = self.clients@;
        let mut client = self.clients.remove(i);
        let sent = client.send_all(&packets);
        self.clients.insert(i, client);
        assert(self.clients@ =~= before.update(i as int, client));
        assert forall|j: int| 0 <= j < self.clients@.len() && j != i implies #[trigger] self.clients@[j].token
            != token by {
            assert(old(self).clients@[j].token != old(self).clients@[i as int].token);
        }
        let mut actions: Vec<(u32, ClientAction)> = Vec::new();
        tag_actions(token, sent, &mut actions);
        actions
    }
}

/// The bytes of the channel name "minecraft:brand".
pub open spec fn brand_channel_bytes() -> Seq<u8> {
    seq![109u8, 105, 110, 101, 99, 114, 97, 102, 116, 58, 98, 114, 97, 110, 100]
}

/// The body of the brand plugin message carrying `brand`.
pub open spec fn brand_packet_body(brand: Seq<u8>) -> Seq<u8> {
    crate::codec::packet_body(CONFIG_PLUGIN_MESSAGE_ID, string_bytes(brand_channel_bytes()) + brand)
}

/// Appends `sent`, each paired with `token`, to `actions`.
fn tag_actions(token: u32, sent: Vec<ClientAction>, actions: &mut Vec<(u32, ClientAction)>)
    ensures
        final(actions)@.len() == old(actions)@.len() + sent@.len(),
        forall|k: int| 0 <= k < sent@.len() ==> #[trigger] final(actions)@[old(actions)@.len() + k] == (token, sent@[k]),
        final(actions)@.take(old(actions)@.len() as int) == old(actions)@,
{
    let mut sent = sent;
    let ghost all = sent@;
    let n = sent.len();
    let ghost start = actions@;
    let mut k: usize = 0;
    while sent.len() > 0
        invariant
            k + sent@.len() == all.len(),
            all.len() == n,
            sent@ == all.skip(k as int),
            actions@.len() == start.len() + k,
            actions@.take(start.len() as int) == start,
            forall|m: int| 0 <= m < k ==> #[trigger] actions@[start.len() + m] == (token, all[m]),
        decreases sent@.len(),
    {
        let ghost before = actions@;
        let a = sent.remove(0);
        assert(a == all[k as int]);
        actions.push((token, a));
        assert(actions@.take(start.len() as int) =~= before.take(start.len() as int));
        assert(sent@ =~= all.skip(k + 1));
        k = k + 1;
    }
}

/// Whether `s` holds `t`.
pub fn slice_contains(s: &[u32], t: u32) -> (r: bool)
    ensures
        r == s@.contains(t),
{
    let mut i: usize = 0;
    while i < s.len()
        invariant
            i <= s@.len(),
            forall|j: int| 0 <= j < i ==> s@[j] != t,
        decreases s@.len() - i,
    {
        if s[i] == t {
            return true;
        }
        i = i + 1;
    }
    false
}

} // verus!
