//! Packets the server sends, built as an id and field bytes.
use vstd::prelude::*;
use crate::codec::{append_bytes, UncompressedPacket, MAX_FRAME_LEN};
use crate::varint::{encode_varint, varint_bytes};
use vstd::string::StringSliceAdditionalSpecFns;

verus! {

/// Status phase: the status response (JSON text).
pub const STATUS_RESPONSE_ID: i32 = 0x00;
/// Status phase: the answer to a ping.
pub const PING_RESPONSE_ID: i32 = 0x01;
/// Login phase: the disconnect packet (a JSON text component).
pub const LOGIN_DISCONNECT_ID: i32 = 0x00;
/// Login phase: the compression threshold.
pub const SET_COMPRESSION_ID: i32 = 0x03;
/// Configuration phase: a plugin message.
pub const CONFIG_PLUGIN_MESSAGE_ID: i32 = 0x01;
/// Configuration phase: the end of configuration.
pub const FINISH_CONFIG_ID: i32 = 0x03;
/// Play phase: players to remove from the player list.
pub const REMOVE_PLAYER_INFO_ID: i32 = 0x3D;
/// Play phase: entities to remove.
pub const REMOVE_ENTITIES_ID: i32 = 0x42;
/// Login phase: the encryption request.
pub const ENCRYPTION_REQUEST_ID: i32 = 0x01;
/// Login phase: the login success.
pub const LOGIN_SUCCESS_ID: i32 = 0x02;
/// Configuration phase: the disconnect packet (a text component).
pub const CONFIG_DISCONNECT_ID: i32 = 0x02;
/// Configuration phase: a resource pack to add.
pub const ADD_RESOURCE_PACK_ID: i32 = 0x09;
/// Configuration phase: the data packs the server knows.
pub const KNOWN_PACKS_ID: i32 = 0x0E;
/// Play phase: the disconnect packet (a text component).
pub const PLAY_DISCONNECT_ID: i32 = 0x1D;
/// The most bytes of a string tag's text.
pub const MAX_TAG_STRING_LEN: usize = 0xffff;

/// The wire form of a string: its UTF-8 length as a VarInt, then the bytes.
pub open spec fn string_bytes(s: Seq<u8>) -> Seq<u8> {
    varint_bytes(s.len() as i32) + s
}

/// The `n` low bytes of `v`, most significant first.
pub open spec fn be_bytes(v: nat, n: nat) -> Seq<u8>
    decreases n,
{
    if n == 0 {
        Seq::empty()
    } else {
        be_bytes(v / 256, (n - 1) as nat).push((v % 256) as u8)
    }
}

/// Appends the `n` low bytes of `v`, most significant first.
pub fn push_be(out: &mut Vec<u8>, v: u64, n: usize)
    ensures
        final(out)@ == old(out)@ + be_bytes(v as nat, n as nat),
    decreases n,
{
    if n > 0 {
        push_be(out, v / 256, n - 1);
        out.push((v % 256) as u8);
        assert(final(out)@ =~= old(out)@ + be_bytes(v as nat, n as nat));
    } else {
        assert(out@ =~= old(out)@ + be_bytes(v as nat, n as nat));
    }
}

/// Appends the wire form of `s`.
pub fn write_string(out: &mut Vec<u8>, s: &str)
    requires
        s.spec_bytes().len() <= MAX_FRAME_LEN,
    ensures
        final(out)@ == old(out)@ + string_bytes(s.spec_bytes()),
{
    let b = s.as_bytes();
    encode_varint(b.len() as i32, out);
    let mut i: usize = 0;
    let ghost start = out@;
    while i < b.len()
        invariant
            i <= b@.len(),
            out@ == start + b@.take(i as int),
        decreases b@.len() - i,
    {
        out.push(b[i]);
        i = i + 1;
        assert(out@ =~= start + b@.take(i as int));
    }
    assert(b@.take(i as int) =~= b@);
    assert(out@ =~= old(out)@ + string_bytes(s.spec_bytes()));
}

/// The status response carrying `json`.
pub fn status_response(json: &str) -> (r: UncompressedPacket)
    requires
        json.spec_bytes().len() <= MAX_FRAME_LEN,
    ensures
        r.id == STATUS_RESPONSE_ID,
        r.data@ == string_bytes(json.spec_bytes()),
{
    let mut data: Vec<u8> = Vec::new();
    write_string(&mut data, json);
    UncompressedPacket::new(STATUS_RESPONSE_ID, data)
}

/// The answer to a status ping: the ping's payload, eight bytes big-endian.
pub fn ping_response(payload: i64) -> (r: UncompressedPacket)
    ensures
        r.id == PING_RESPONSE_ID,
        r.data@ == be_bytes((payload as u64) as nat, 8),
{
    let mut data: Vec<u8> = Vec::new();
    push_be(&mut data, payload as u64, 8);
    UncompressedPacket::new(PING_RESPONSE_ID, data)
}

/// The login-phase disconnect carrying the JSON text `reason_json`.
pub fn login_disconnect(reason_json: &str) -> (r: UncompressedPacket)
    requires
        reason_json.spec_bytes().len() <= MAX_FRAME_LEN,
    ensures
        r.id == LOGIN_DISCONNECT_ID,
        r.data@ == string_bytes(reason_json.spec_bytes()),
{
    let mut data: Vec<u8> = Vec::new();
    write_string(&mut data, reason_json);
    UncompressedPacket::new(LOGIN_DISCONNECT_ID, data)
}

/// Tells the client the compression threshold.
pub fn set_compression(threshold: i32) -> (r: UncompressedPacket)
    ensures
        r.id == SET_COMPRESSION_ID,
        r.data@ == varint_bytes(threshold),
{
    let mut data: Vec<u8> = Vec::new();
    encode_varint(threshold, &mut data);
    assert(data@ =~= varint_bytes(threshold));
    UncompressedPacket::new(SET_COMPRESSION_ID, data)
}

/// A configuration-phase plugin message on `channel`.
pub fn plugin_message(channel: &str, payload: &Vec<u8>) -> (r: UncompressedPacket)
    requires
        channel.spec_bytes().len() <= MAX_FRAME_LEN,
    ensures
        r.id == CONFIG_PLUGIN_MESSAGE_ID,
        r.data@ == string_bytes(channel.spec_bytes()) + payload@,
{
    let mut data: Vec<u8> = Vec::new();
    write_string(&mut data, channel);
    append_bytes(&mut data, payload);
    UncompressedPacket::new(CONFIG_PLUGIN_MESSAGE_ID, data)
}

/// The end of configuration.
pub fn finish_config() -> (r: UncompressedPacket)
    ensures
        r.id == FINISH_CONFIG_ID,
        r.data@.len() == 0,
{
    UncompressedPacket::new(FINISH_CONFIG_ID, Vec::new())
}

/// The VarInts of `ids`, one after another.
pub open spec fn varints(ids: Seq<i32>) -> Seq<u8>
    decreases ids.len(),
{
    if ids.len() == 0 {
        Seq::empty()
    } else {
        varints(ids.drop_last()) + varint_bytes(ids.last())
    }
}

/// Removes the entities `ids` on the client: their count, then each id.
pub fn remove_entities(ids: &[i32]) -> (r: UncompressedPacket)
    requires
        ids@.len() <= MAX_FRAME_LEN,
    ensures
        r.id == REMOVE_ENTITIES_ID,
        r.data@ == varint_bytes(ids@.len() as i32) + varints(ids@),
{
    let mut data: Vec<u8> = Vec::new();
    encode_varint(ids.len() as i32, &mut data);
    let ghost start = data@;
    let mut i: usize = 0;
    assert(ids@.take(0) =~= Seq::<i32>::empty());
    while i < ids.len()
        invariant
            i <= ids@.len(),
            data@ == start + varints(ids@.take(i as int)),
        decreases ids@.len() - i,
    {
        encode_varint(ids[i], &mut data);
        i = i + 1;
        assert(ids@.take(i as int).drop_last() =~= ids@.take(i - 1));
        assert(data@ =~= start + varints(ids@.take(i as int)));
    }
    assert(ids@.take(i as int) =~= ids@);
    UncompressedPacket::new(REMOVE_ENTITIES_ID, data)
}

/// The wire form of a byte array: its length as a VarInt, then the bytes.
pub open spec fn byte_array_bytes(b: Seq<u8>) -> Seq<u8> {
    varint_bytes(b.len() as i32) + b
}

/// Appends the wire form of the byte array `b`.
pub fn write_byte_array(out: &mut Vec<u8>, b: &Vec<u8>)
    requires
        b@.len() <= MAX_FRAME_LEN,
    ensures
        final(out)@ == old(out)@ + byte_array_bytes(b@),
{
    encode_varint(b.len() as i32, out);
    append_bytes(out, b);
    assert(final(out)@ =~= old(out)@ + byte_array_bytes(b@));
}

/// Asks the client to encrypt: the server id, the public key (DER) and the
/// verify token, each length-prefixed, and whether the client must
/// authenticate.
pub fn encryption_request(
    server_id: &str,
    public_key_der: &Vec<u8>,
    verify_token: &Vec<u8>,
    should_authenticate: bool,
) -> (r: UncompressedPacket)
    requires
        server_id.spec_bytes().len() <= MAX_FRAME_LEN,
        public_key_der@.len() <= MAX_FRAME_LEN,
        verify_token@.len() <= MAX_FRAME_LEN,
    ensures
        r.id == ENCRYPTION_REQUEST_ID,
        r.data@ == string_bytes(server_id.spec_bytes()) + byte_array_bytes(public_key_der@)
            + byte_array_bytes(verify_token@) + seq![if should_authenticate { 1u8 } else { 0u8 }],
{
    let mut data: Vec<u8> = Vec::new();
    write_string(&mut data, server_id);
    write_byte_array(&mut data, public_key_der);
    write_byte_array(&mut data, verify_token);
    data.push(if should_authenticate { 1u8 } else { 0u8 });
    UncompressedPacket::new(ENCRYPTION_REQUEST_ID, data)
}

/// The login success: the UUID's bytes, the name, no properties, and lenient
/// error handling.
pub fn login_success(uuid: &Vec<u8>, name: &str) -> (r: UncompressedPacket)
    requires
        name.spec_bytes().len() <= MAX_FRAME_LEN,
    ensures
        r.id == LOGIN_SUCCESS_ID,
        r.data@ == uuid@ + string_bytes(name.spec_bytes()) + seq![0u8, 0u8],
{
    let mut data: Vec<u8> = Vec::new();
    append_bytes(&mut data, uuid);
    write_string(&mut data, name);
    data.push(0u8);
    data.push(0u8);
    UncompressedPacket::new(LOGIN_SUCCESS_ID, data)
}

/// The one data pack the server knows: its namespace, id and version.
pub fn known_packs(namespace: &str, id: &str, version: &str) -> (r: UncompressedPacket)
    requires
        namespace.spec_bytes().len() <= MAX_FRAME_LEN,
        id.spec_bytes().len() <= MAX_FRAME_LEN,
        version.spec_bytes().len() <= MAX_FRAME_LEN,
    ensures
        r.id == KNOWN_PACKS_ID,
        r.data@ == seq![1u8] + string_bytes(namespace.spec_bytes()) + string_bytes(id.spec_bytes())
            + string_bytes(version.spec_bytes()),
{
    let mut data: Vec<u8> = Vec::new();
    data.push(1u8);
    write_string(&mut data, namespace);
    write_string(&mut data, id);
    write_string(&mut data, version);
    assert(data@ =~= seq![1u8] + string_bytes(namespace.spec_bytes()) + string_bytes(id.spec_bytes())
        + string_bytes(version.spec_bytes()));
    UncompressedPacket::new(KNOWN_PACKS_ID, data)
}

/// A plain text component as a network tag: the string tag type, the text's
/// length in two bytes, then the text.
pub open spec fn text_tag_bytes(text: Seq<u8>) -> Seq<u8> {
    seq![8u8] + be_bytes(text.len(), 2) + text
}

/// The disconnect packet of the Configuration or Play phase (id `id`),
/// carrying `reason` as a text component.
pub fn text_disconnect(id: i32, reason: &str) -> (r: UncompressedPacket)
    requires
        reason.spec_bytes().len() <= MAX_TAG_STRING_LEN,
    ensures
        r.id == id,
        r.data@ == text_tag_bytes(reason.spec_bytes()),
{
    let b = reason.as_bytes();
    let mut data: Vec<u8> = Vec::new();
    data.push(8u8);
    push_be(&mut data, b.len() as u64, 2);
    let ghost start = data@;
    let mut i: usize = 0;
    while i < b.len()
        invariant
            i <= b@.len(),
            data@ == start + b@.take(i as int),
        decreases b@.len() - i,
    {
        data.push(b[i]);
        i = i + 1;
        assert(data@ =~= start + b@.take(i as int));
    }
    assert(b@.take(i as int) =~= b@);
    assert(data@ =~= text_tag_bytes(reason.spec_bytes()));
    UncompressedPacket::new(id, data)
}

/// The optional prompt of a resource pack: absent when empty, else a text
/// component.
pub open spec fn prompt_bytes(prompt: Seq<u8>) -> Seq<u8> {
    if prompt.len() == 0 {
        seq![0u8]
    } else {
        seq![1u8] + text_tag_bytes(prompt)
    }
}

/// The fields of an add-resource-pack packet.
pub open spec fn resource_pack_fields(uuid: Seq<u8>, url: Seq<u8>, hash: Seq<u8>, forced: bool, prompt: Seq<u8>) -> Seq<u8> {
    uuid + string_bytes(url) + string_bytes(hash) + seq![if forced { 1u8 } else { 0u8 }]
        + prompt_bytes(prompt)
}

/// Asks the client to add the resource pack at `url`.
pub fn add_resource_pack(uuid: &Vec<u8>, url: &str, hash: &str, forced: bool, prompt: &str) -> (r: UncompressedPacket)
    requires
        url.spec_bytes().len() <= MAX_FRAME_LEN,
        hash.spec_bytes().len() <= MAX_FRAME_LEN,
        prompt.spec_bytes().len() <= MAX_TAG_STRING_LEN,
    ensures
        r.id == ADD_RESOURCE_PACK_ID,
        r.data@ == resource_pack_fields(uuid@, url.spec_bytes(), hash.spec_bytes(), forced, prompt.spec_bytes()),
{
    let mut data: Vec<u8> = Vec::new();
    append_bytes(&mut data, uuid);
    write_string(&mut data, url);
    write_string(&mut data, hash);
    data.push(if forced { 1u8 } else { 0u8 });
    let p = prompt.as_bytes();
    if p.len() == 0 {
        data.push(0u8);
    } else {
        data.push(1u8);
        let text = text_disconnect(0, prompt);
        append_bytes(&mut data, &text.data);
    }
    assert(data@ =~= resource_pack_fields(uuid@, url.spec_bytes(), hash.spec_bytes(), forced, prompt.spec_bytes()));
    UncompressedPacket::new(ADD_RESOURCE_PACK_ID, data)
}

/// Removes one player, by the 16 bytes of its UUID, from the player list:
/// a count of one, then the UUID.
pub fn remove_player_info(uuid: &Vec<u8>) -> (r: UncompressedPacket)
    ensures
        r.id == REMOVE_PLAYER_INFO_ID,
        r.data@ == seq![1u8] + uuid@,
{
    let mut data: Vec<u8> = Vec::new();
    data.push(1u8);
    append_bytes(&mut data, uuid);
    UncompressedPacket::new(REMOVE_PLAYER_INFO_ID, data)
}

} // verus!
