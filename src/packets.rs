//! Serverbound packets of the Status, Login and Configuration phases whose
//! fields the session reads.
use vstd::prelude::*;
use crate::bytebuf::{
    read_be, read_byte_array, read_fixed, read_string, read_varint, spec_be, spec_byte_array,
    spec_string, spec_varint,
};
use crate::handshake::DeserializerError;

verus! {

/// The most characters of a player name.
pub const MAX_NAME_LEN: usize = 16;

/// The most characters of a plugin channel name.
pub const MAX_CHANNEL_LEN: usize = 32767;

/// A status-phase ping: an opaque number echoed back.
pub struct SStatusPingRequest {
    pub payload: i64,
}

impl SStatusPingRequest {
    pub fn read(b: &[u8]) -> (r: Result<SStatusPingRequest, DeserializerError>)
        ensures
            r is Ok <==> b@.len() >= 8,
            r matches Ok(p) ==> spec_be(b@, 0, 8) matches Some((v, _)) && p.payload == v as i64,
            r is Err ==> r == Err::<SStatusPingRequest, DeserializerError>(
                DeserializerError::Malformed,
            ),
    {
        match read_be(b, 0, 8) {
            Some((v, _)) => Ok(SStatusPingRequest { payload: v as i64 }),
            None => Err(DeserializerError::Malformed),
        }
    }
}

/// Login start: the player's name and the 16 bytes of the UUID it claims.
pub struct SLoginStart {
    pub name: String,
    pub uuid: Vec<u8>,
}

pub open spec fn login_start_fields(b: Seq<u8>) -> Option<(Seq<char>, Seq<u8>)> {
    match spec_string(b, 0, MAX_NAME_LEN as nat) {
        Some((name, p)) => if p + 16 <= b.len() {
            Some((name, b.subrange(p as int, (p + 16) as int)))
        } else {
            None
        },
        None => None,
    }
}

impl SLoginStart {
    pub fn read(b: &[u8]) -> (r: Result<SLoginStart, DeserializerError>)
        ensures
            r is Ok <==> login_start_fields(b@) is Some,
            r matches Ok(p) ==> login_start_fields(b@) == Some((p.name@, p.uuid@)),
            r is Err ==> r == Err::<SLoginStart, DeserializerError>(DeserializerError::Malformed),
    {
        let (name, p) = match read_string(b, 0, MAX_NAME_LEN) {
            Some(x) => x,
            None => return Err(DeserializerError::Malformed),
        };
        match read_fixed(b, p, 16) {
            Some((uuid, _)) => Ok(SLoginStart { name, uuid }),
            None => Err(DeserializerError::Malformed),
        }
    }
}

/// The client's answer to the encryption request: the shared secret and the
/// verify token, both encrypted with the server's public key.
pub struct SEncryptionResponse {
    pub shared_secret: Vec<u8>,
    pub verify_token: Vec<u8>,
}

pub open spec fn encryption_response_fields(b: Seq<u8>) -> Option<(Seq<u8>, Seq<u8>)> {
    match spec_byte_array(b, 0) {
        Some((secret, p)) => match spec_byte_array(b, p) {
            Some((token, _)) => Some((secret, token)),
            None => None,
        },
        None => None,
    }
}

impl SEncryptionResponse {
    pub fn read(b: &[u8]) -> (r: Result<SEncryptionResponse, DeserializerError>)
        ensures
            r is Ok <==> encryption_response_fields(b@) is Some,
            r matches Ok(p) ==> encryption_response_fields(b@) == Some(
                (p.shared_secret@, p.verify_token@),
            ),
            r is Err ==> r == Err::<SEncryptionResponse, DeserializerError>(
                DeserializerError::Malformed,
            ),
    {
        let (shared_secret, p) = match read_byte_array(b, 0) {
            Some(x) => x,
            None => return Err(DeserializerError::Malformed),
        };
        match read_byte_array(b, p) {
            Some((verify_token, _)) => Ok(SEncryptionResponse { shared_secret, verify_token }),
            None => Err(DeserializerError::Malformed),
        }
    }
}

/// A plugin message: the channel's name and the bytes after it.
pub struct SPluginMessage {
    pub channel: String,
    pub data: Vec<u8>,
}

pub open spec fn plugin_message_fields(b: Seq<u8>) -> Option<(Seq<char>, Seq<u8>)> {
    match spec_string(b, 0, MAX_CHANNEL_LEN as nat) {
        Some((channel, p)) => Some((channel, b.skip(p as int))),
        None => None,
    }
}

impl SPluginMessage {
    pub fn read(b: &[u8]) -> (r: Result<SPluginMessage, DeserializerError>)
        ensures
            r is Ok <==> plugin_message_fields(b@) is Some,
            r matches Ok(p) ==> plugin_message_fields(b@) == Some((p.channel@, p.data@)),
            r is Err ==> r == Err::<SPluginMessage, DeserializerError>(DeserializerError::Malformed),
    {
        let (channel, p) = match read_string(b, 0, MAX_CHANNEL_LEN) {
            Some(x) => x,
            None => return Err(DeserializerError::Malformed),
        };
        match read_fixed(b, p, b.len() - p) {
            Some((data, _)) => {
                assert(b@.subrange(p as int, b@.len() as int) =~= b@.skip(p as int));
                Ok(SPluginMessage { channel, data })
            },
            None => Err(DeserializerError::Malformed),
        }
    }
}

/// A boolean field: one byte, 0 or 1.
pub open spec fn spec_bool(b: Seq<u8>, p: nat) -> Option<(bool, nat)> {
    if p < b.len() && b[p as int] <= 1 {
        Some((b[p as int] == 1, p + 1))
    } else {
        None
    }
}

pub fn read_bool(b: &[u8], p: usize) -> (r: Option<(bool, usize)>)
    ensures
        match spec_bool(b@, p as nat) {
            Some((v, q)) => r matches Some((w, s)) && w == v && s == q,
            None => r is None,
        },
{
    if p < b.len() && b[p] <= 1 {
        Some((b[p] == 1, p + 1))
    } else {
        None
    }
}

/// One byte at `p`.
pub open spec fn spec_byte(b: Seq<u8>, p: nat) -> Option<(u8, nat)> {
    if p < b.len() {
        Some((b[p as int], p + 1))
    } else {
        None
    }
}

pub fn read_byte(b: &[u8], p: usize) -> (r: Option<(u8, usize)>)
    ensures
        match spec_byte(b@, p as nat) {
            Some((v, q)) => r matches Some((w, s)) && w == v && s == q,
            None => r is None,
        },
{
    if p < b.len() {
        Some((b[p], p + 1))
    } else {
        None
    }
}

/// The client's settings, sent during configuration.
pub struct SClientInformationConfig {
    pub locale: String,
    pub view_distance: i8,
    pub chat_mode: i32,
    pub chat_colors: bool,
    pub skin_parts: u8,
    pub main_hand: i32,
    pub text_filtering: bool,
    pub server_listing: bool,
}

/// The fields of a client-information packet, in wire order.
pub struct ClientInformationFields {
    pub locale: Seq<char>,
    pub view_distance: i8,
    pub chat_mode: i32,
    pub chat_colors: bool,
    pub skin_parts: u8,
    pub main_hand: i32,
    pub text_filtering: bool,
    pub server_listing: bool,
}

pub open spec fn client_information_fields(b: Seq<u8>) -> Option<ClientInformationFields> {
    match spec_string(b, 0, MAX_NAME_LEN as nat) {
        Some((locale, pos1)) => match spec_byte(b, pos1) {
            Some((view, pos2)) => match spec_varint(b, pos2) {
                Some((chat_mode, pos3)) => match spec_bool(b, pos3) {
                    Some((chat_colors, pos4)) => match spec_byte(b, pos4) {
                        Some((skin_parts, pos5)) => match spec_varint(b, pos5) {
                            Some((main_hand, pos6)) => match spec_bool(b, pos6) {
                                Some((text_filtering, pos7)) => match spec_bool(b, pos7) {
                                    Some((server_listing, _)) => Some(
                                        ClientInformationFields {
                                            locale,
                                            view_distance: view as i8,
                                            chat_mode,
                                            chat_colors,
                                            skin_parts,
                                            main_hand,
                                            text_filtering,
                                            server_listing,
                                        },
                                    ),
                                    None => None,
                                },
                                None => None,
                            },
                            None => None,
                        },
                        None => None,
                    },
                    None => None,
                },
                None => None,
            },
            None => None,
        },
        None => None,
    }
}

impl SClientInformationConfig {
    pub open spec fn fields(&self) -> ClientInformationFields {
        ClientInformationFields {
            locale: self.locale@,
            view_distance: self.view_distance,
            chat_mode: self.chat_mode,
            chat_colors: self.chat_colors,
            skin_parts: self.skin_parts,
            main_hand: self.main_hand,
            text_filtering: self.text_filtering,
            server_listing: self.server_listing,
        }
    }

    pub fn read(b: &[u8]) -> (r: Result<SClientInformationConfig, DeserializerError>)
        ensures
            r is Ok <==> client_information_fields(b@) is Some,
            r matches Ok(p) ==> client_information_fields(b@) == Some(p.fields()),
            r is Err ==> r == Err::<SClientInformationConfig, DeserializerError>(
                DeserializerError::Malformed,
            ),
    {
        let (locale, pos1) = match read_string(b, 0, MAX_NAME_LEN) {
            Some(x) => x,
            None => return Err(DeserializerError::Malformed),
        };
        let (view, pos2) = match read_byte(b, pos1) {
            Some(x) => x,
            None => return Err(DeserializerError::Malformed),
        };
        let (chat_mode, pos3) = match read_varint(b, pos2) {
            Some(x) => x,
            None => return Err(DeserializerError::Malformed),
        };
        let (chat_colors, pos4) = match read_bool(b, pos3) {
            Some(x) => x,
            None => return Err(DeserializerError::Malformed),
        };
        let (skin_parts, pos5) = match read_byte(b, pos4) {
            Some(x) => x,
            None => return Err(DeserializerError::Malformed),
        };
        let (main_hand, pos6) = match read_varint(b, pos5) {
            Some(x) => x,
            None => return Err(DeserializerError::Malformed),
        };
        let (text_filtering, pos7) = match read_bool(b, pos6) {
            Some(x) => x,
            None => return Err(DeserializerError::Malformed),
        };
        let (server_listing, _) = match read_bool(b, pos7) {
            Some(x) => x,
            None => return Err(DeserializerError::Malformed),
        };
        Ok(SClientInformationConfig {
            locale,
            view_distance: view as i8,
            chat_mode,
            chat_colors,
            skin_parts,
            main_hand,
            text_filtering,
            server_listing,
        })
    }
}

/// A login plugin response: the message id it answers, and whether the
/// client understood the request; the bytes after are the answer.
pub struct SLoginPluginResponse {
    pub message_id: i32,
    pub successful: bool,
    pub data: Vec<u8>,
}

pub open spec fn login_plugin_response_fields(b: Seq<u8>) -> Option<(i32, bool, Seq<u8>)> {
    match spec_varint(b, 0) {
        Some((id, pos1)) => match spec_bool(b, pos1) {
            Some((ok, pos2)) => Some((id, ok, b.skip(pos2 as int))),
            None => None,
        },
        None => None,
    }
}

impl SLoginPluginResponse {
    pub fn read(b: &[u8]) -> (r: Result<SLoginPluginResponse, DeserializerError>)
        ensures
            r is Ok <==> login_plugin_response_fields(b@) is Some,
            r matches Ok(p) ==> login_plugin_response_fields(b@) == Some(
                (p.message_id, p.successful, p.data@),
            ),
            r is Err ==> r == Err::<SLoginPluginResponse, DeserializerError>(
                DeserializerError::Malformed,
            ),
    {
        let (message_id, pos1) = match read_varint(b, 0) {
            Some(x) => x,
            None => return Err(DeserializerError::Malformed),
        };
        let (successful, pos2) = match read_bool(b, pos1) {
            Some(x) => x,
            None => return Err(DeserializerError::Malformed),
        };
        match read_fixed(b, pos2, b.len() - pos2) {
            Some((data, _)) => {
                assert(b@.subrange(pos2 as int, b@.len() as int) =~= b@.skip(pos2 as int));
                Ok(SLoginPluginResponse { message_id, successful, data })
            },
            None => Err(DeserializerError::Malformed),
        }
    }
}

/// The most characters of each name in a known pack.
pub const MAX_PACK_STRING_LEN: usize = 32767;

/// A data pack the client knows: namespace, id and version.
pub struct KnownPack {
    pub namespace: String,
    pub id: String,
    pub version: String,
}

/// Where the first `i` packs of a pack list that starts at `start` end.
pub open spec fn packs_end(b: Seq<u8>, start: nat, i: nat) -> Option<nat>
    decreases i,
{
    if i == 0 {
        Some(start)
    } else {
        match packs_end(b, start, (i - 1) as nat) {
            Some(p) => match spec_string(b, p, MAX_PACK_STRING_LEN as nat) {
                Some((_, q)) => match spec_string(b, q, MAX_PACK_STRING_LEN as nat) {
                    Some((_, u)) => match spec_string(b, u, MAX_PACK_STRING_LEN as nat) {
                        Some((_, w)) => Some(w),
                        None => None,
                    },
                    None => None,
                },
                None => None,
            },
            None => None,
        }
    }
}

/// Whether `b` holds a list of known packs: a count, then that many packs.
pub open spec fn known_packs_fields(b: Seq<u8>) -> Option<nat> {
    match spec_varint(b, 0) {
        Some((n, p)) => if n < 0 {
            None
        } else {
            packs_end(b, p, n as nat)
        },
        None => None,
    }
}

/// The client's answer naming the data packs it knows.
pub struct SKnownPacks {
    pub packs: Vec<KnownPack>,
}

impl SKnownPacks {
    pub fn read(b: &[u8]) -> (r: Result<SKnownPacks, DeserializerError>)
        ensures
            r is Ok <==> known_packs_fields(b@) is Some,
            r is Err ==> r == Err::<SKnownPacks, DeserializerError>(DeserializerError::Malformed),
    {
        let (n, start) = match read_varint(b, 0) {
            Some(x) => x,
            None => return Err(DeserializerError::Malformed),
        };
        if n < 0 {
            return Err(DeserializerError::Malformed);
        }
        let count = n as usize;
        let mut packs: Vec<KnownPack> = Vec::new();
        let mut pos = start;
        let mut i: usize = 0;
        while i < count
            invariant
                i <= count,
                count == n,
                n >= 0,
                spec_varint(b@, 0) == Some((n, start as nat)),
                packs_end(b@, start as nat, i as nat) == Some(pos as nat),
            decreases count - i,
        {
            let (namespace, q) = match read_string(b, pos, MAX_PACK_STRING_LEN) {
                Some(x) => x,
                None => {
                    proof { lemma_packs_end_stops(b@, start as nat, (i + 1) as nat, n as nat); }
                    return Err(DeserializerError::Malformed);
                },
            };
            let (id, u) = match read_string(b, q, MAX_PACK_STRING_LEN) {
                Some(x) => x,
                None => {
                    proof { lemma_packs_end_stops(b@, start as nat, (i + 1) as nat, n as nat); }
                    return Err(DeserializerError::Malformed);
                },
            };
            let (version, w) = match read_string(b, u, MAX_PACK_STRING_LEN) {
                Some(x) => x,
                None => {
                    proof { lemma_packs_end_stops(b@, start as nat, (i + 1) as nat, n as nat); }
                    return Err(DeserializerError::Malformed);
                },
            };
            packs.push(KnownPack { namespace, id, version });
            pos = w;
            i = i + 1;
        }
        Ok(SKnownPacks { packs })
    }
}

/// A pack list that breaks off before pack `i` breaks off before pack `n` too.
proof fn lemma_packs_end_stops(b: Seq<u8>, start: nat, i: nat, n: nat)
    requires
        i <= n,
        packs_end(b, start, i) is None,
    ensures
        packs_end(b, start, n) is None,
    decreases n - i,
{
    if i < n {
        lemma_packs_end_stops(b, start, i + 1, n);
    }
}

} // verus!
