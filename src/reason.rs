//! The texts that tell a client why it is disconnected, and the disconnect
//! packet of each phase that has one.
use vstd::prelude::*;
use crate::client::{Client, DisconnectReason, EncryptionError};
use crate::clientbound::{
    login_disconnect, string_bytes, text_disconnect, text_tag_bytes, CONFIG_DISCONNECT_ID,
    LOGIN_DISCONNECT_ID, MAX_TAG_STRING_LEN, PLAY_DISCONNECT_ID,
};
use crate::codec::{PacketError, UncompressedPacket, MAX_FRAME_LEN};

use crate::pipeline::encoded_frame;
use crate::state::ConnectionState;
use vstd::string::StringSliceAdditionalSpecFns;

verus! {

pub open spec fn digit_char(d: nat) -> char {
    if d == 0 { '0' } else if d == 1 { '1' } else if d == 2 { '2' } else if d == 3 { '3' } else if d
        == 4 { '4' } else if d == 5 { '5' } else if d == 6 { '6' } else if d == 7 { '7' } else if d
        == 8 { '8' } else { '9' }
}

/// The decimal digits of `n`, most significant first.
pub open spec fn digits(n: nat) -> Seq<char>
    decreases n,
{
    if n < 10 {
        seq![digit_char(n)]
    } else {
        digits(n / 10) + seq![digit_char(n % 10)]
    }
}

/// `n` written in decimal, with a minus sign when negative.
pub open spec fn decimal(n: int) -> Seq<char> {
    if n < 0 {
        seq!['-'] + digits((-n) as nat)
    } else {
        digits(n as nat)
    }
}

fn digit_str(d: u64) -> (r: &'static str)
    requires
        d < 10,
    ensures
        r@ == seq![digit_char(d as nat)],
{
    proof {
        reveal_strlit("0");
        reveal_strlit("1");
        reveal_strlit("2");
        reveal_strlit("3");
        reveal_strlit("4");
        reveal_strlit("5");
        reveal_strlit("6");
        reveal_strlit("7");
        reveal_strlit("8");
        reveal_strlit("9");
    }
    let r = if d == 0 { "0" } else if d == 1 { "1" } else if d == 2 { "2" } else if d == 3 { "3" } else if d
        == 4 { "4" } else if d == 5 { "5" } else if d == 6 { "6" } else if d == 7 { "7" } else if d
        == 8 { "8" } else { "9" };
    assert(r@ =~= seq![digit_char(d as nat)]);
    r
}

/// Appends the decimal digits of `n`.
fn push_digits(s: &mut String, n: u64)
    ensures
        final(s)@ == old(s)@ + digits(n as nat),
    decreases n,
{
    if n < 10 {
        s.append(digit_str(n));
    } else {
        push_digits(s, n / 10);
        s.append(digit_str(n % 10));
        assert(final(s)@ =~= old(s)@ + digits(n as nat));
    }
}

/// Appends `n` in decimal.
pub fn push_decimal(s: &mut String, n: i32)
    ensures
        final(s)@ == old(s)@ + decimal(n as int),
{
    if n < 0 {
        s.append("-");
        proof {
            reveal_strlit("-");
        }
        let ghost mid = s@;
        push_digits(s, (-(n as i64)) as u64);
        assert(final(s)@ =~= old(s)@ + decimal(n as int));
    } else {
        push_digits(s, n as u64);
    }
}

/// The text shown to a client disconnected for `reason`.
pub open spec fn reason_text(reason: DisconnectReason) -> Seq<char> {
    match reason {
        DisconnectReason::ClientOutdated(v) => "Client outdated ("@ + decimal(v as int)
            + "), Server uses Minecraft 1.21.1, Protocol 767"@,
        DisconnectReason::ServerOutdated => "Server outdated, Server uses Minecraft 1.21.1, Protocol 767"@,
        DisconnectReason::InvalidUsername => "Invalid characters in username"@,
        DisconnectReason::InvalidBrand => "Client brand is not valid UTF-8"@,
        DisconnectReason::MissingProfile => "game profile is none"@,
        DisconnectReason::Deserialize(_) => "Error while reading incoming packet"@,
        DisconnectReason::Transport(e) => match e {
            PacketError::MalformedLength => "Malformed packet length"@,
            PacketError::MalformedPacketId => "Malformed packet id"@,
            PacketError::DecompressionFailure => "Failed to decompress packet"@,
            PacketError::CompressionFailure => "Failed to compress packet"@,
            PacketError::TooLong => "Packet too long"@,
        },
        DisconnectReason::Encryption(e) => match e {
            EncryptionError::FailedDecrypt => "failed to decrypt shared secret"@,
            EncryptionError::SharedWrongLength => "shared secret has the wrong length"@,
            EncryptionError::AlreadyEnabled => "encryption is already enabled"@,
        },
    }
}

/// The text shown to a client disconnected for `reason`.
pub fn disconnect_text(reason: DisconnectReason) -> (r: String)
    ensures
        r@ == reason_text(reason),
{
    match reason {
        DisconnectReason::ClientOutdated(v) => {
            let mut s = String::from_str("Client outdated (");
            push_decimal(&mut s, v);
            s.append("), Server uses Minecraft 1.21.1, Protocol 767");
            s
        },
        DisconnectReason::ServerOutdated => String::from_str(
            "Server outdated, Server uses Minecraft 1.21.1, Protocol 767",
        ),
        DisconnectReason::InvalidUsername => String::from_str("Invalid characters in username"),
        DisconnectReason::InvalidBrand => String::from_str("Client brand is not valid UTF-8"),
        DisconnectReason::MissingProfile => String::from_str("game profile is none"),
        DisconnectReason::Deserialize(_) => String::from_str("Error while reading incoming packet"),
        DisconnectReason::Transport(e) => match e {
            PacketError::MalformedLength => String::from_str("Malformed packet length"),
            PacketError::MalformedPacketId => String::from_str("Malformed packet id"),
            PacketError::DecompressionFailure => String::from_str("Failed to decompress packet"),
            PacketError::CompressionFailure => String::from_str("Failed to compress packet"),
            PacketError::TooLong => String::from_str("Packet too long"),
        },
        DisconnectReason::Encryption(e) => match e {
            EncryptionError::FailedDecrypt => String::from_str("failed to decrypt shared secret"),
            EncryptionError::SharedWrongLength => String::from_str(
                "shared secret has the wrong length",
            ),
            EncryptionError::AlreadyEnabled => String::from_str("encryption is already enabled"),
        },
    }
}

/// A lowercase hexadecimal digit.
pub open spec fn hex_char(d: nat) -> char {
    if d < 10 {
        digit_char(d)
    } else if d == 10 { 'a' } else if d == 11 { 'b' } else if d == 12 { 'c' } else if d == 13 {
        'd'
    } else if d == 14 { 'e' } else { 'f' }
}

/// How serde_json writes one character inside a string literal: quote and
/// backslash escaped, the five named control characters as `\b \t \n \f \r`,
/// other control characters as `\u00` and two hex digits, the rest as is.
pub open spec fn json_escape_char(c: char) -> Seq<char> {
    let u = c as u32;
    if c == '"' {
        seq!['\\', '"']
    } else if c == '\\' {
        seq!['\\', '\\']
    } else if u == 8 {
        seq!['\\', 'b']
    } else if u == 9 {
        seq!['\\', 't']
    } else if u == 10 {
        seq!['\\', 'n']
    } else if u == 12 {
        seq!['\\', 'f']
    } else if u == 13 {
        seq!['\\', 'r']
    } else if u < 32 {
        seq!['\\', 'u', '0', '0', hex_char((u / 16) as nat), hex_char((u % 16) as nat)]
    } else {
        seq![c]
    }
}

pub open spec fn json_escape(s: Seq<char>) -> Seq<char>
    decreases s.len(),
{
    if s.len() == 0 {
        Seq::empty()
    } else {
        json_escape(s.drop_last()) + json_escape_char(s.last())
    }
}

/// The JSON string literal for the text `s`.
pub open spec fn json_string(s: Seq<char>) -> Seq<char> {
    seq!['"'] + json_escape(s) + seq!['"']
}

/// Relies on `serde_json::to_string` on a string: its JSON literal, escaped
/// as `format_escaped_str_contents` and `CharEscape` do.
#[verifier::external_body]
fn to_json_string(s: &str) -> (r: Option<String>)
    ensures
        r matches Some(j) ==> j@ == json_string(s@),
{
    serde_json::to_string(s).ok()
}

/// Whether `r` is the disconnect packet of phase `state` carrying `text`.
pub open spec fn is_disconnect_packet(state: ConnectionState, text: Seq<char>, r: Option<UncompressedPacket>) -> bool {
    let bytes = vstd::utf8::encode_utf8(text);
    &&& !state.has_disconnect_packet_spec() ==> r is None
    &&& (state == ConnectionState::Config || state == ConnectionState::Play) ==> (r is Some
        <==> bytes.len() <= MAX_TAG_STRING_LEN)
    &&& state == ConnectionState::Config && r is Some ==> r->0.id == CONFIG_DISCONNECT_ID
        && r->0.data@ == text_tag_bytes(bytes)
    &&& state == ConnectionState::Play && r is Some ==> r->0.id == PLAY_DISCONNECT_ID
        && r->0.data@ == text_tag_bytes(bytes)
    &&& state == ConnectionState::Login && r is Some ==> r->0.id == LOGIN_DISCONNECT_ID
        && r->0.data@ == string_bytes(vstd::utf8::encode_utf8(json_string(text)))
}

/// The disconnect packet of phase `state` carrying `text`: in Login a JSON
/// text, in Configuration and Play a text component; the other phases have
/// none. `None` also where the text is too long for the packet.
pub fn disconnect_packet(state: ConnectionState, text: &str) -> (r: Option<UncompressedPacket>)
    ensures
        is_disconnect_packet(state, text@, r),
{
    match state {
        ConnectionState::Config | ConnectionState::Play => {
            if text.as_bytes().len() > MAX_TAG_STRING_LEN {
                return None;
            }
            let id = if state == ConnectionState::Config {
                CONFIG_DISCONNECT_ID
            } else {
                PLAY_DISCONNECT_ID
            };
            Some(text_disconnect(id, text))
        },
        ConnectionState::Login => {
            let json = match to_json_string(text) {
                Some(j) => j,
                None => return None,
            };
            if json.as_str().as_bytes().len() > MAX_FRAME_LEN {
                return None;
            }
            Some(login_disconnect(json.as_str()))
        },
        _ => None,
    }
}

impl Client {
    /// Queues the disconnect packet for `reason` in the session's phase, where
    /// the phase has one, and closes the session.
    pub fn send_disconnect(&mut self, reason: DisconnectReason) -> (r: Option<UncompressedPacket>)
        requires
            old(self).wf(),
        ensures
            final(self).wf(),
            final(self).closed,
            final(self).connection_state == old(self).connection_state,
            is_disconnect_packet(old(self).connection_state, reason_text(reason), r),
            r matches Some(p) ==> (final(self).enc.buf@ == old(self).enc.buf@ + encoded_frame(
                old(self).enc.compression,
                p.body(),
            ) || final(self).enc.buf@ == old(self).enc.buf@),
            r matches Some(p) ==> (p.body().len() < MAX_FRAME_LEN && (old(self).enc.compression matches Some((t, _))
                ==> p.body().len() < t) ==> final(self).enc.buf@ == old(self).enc.buf@ + encoded_frame(
                old(self).enc.compression,
                p.body(),
            )),
            final(self).enc.compression == old(self).enc.compression,
            final(self).dec == old(self).dec,
            final(self).token == old(self).token,
            r is None ==> final(self).enc.buf@ == old(self).enc.buf@,
    {
        let text = disconnect_text(reason);
        let packet = disconnect_packet(self.connection_state, text.as_str());
        if let Some(p) = &packet {
            let _ = self.try_send_packet(p);
        }
        self.close();
        packet
    }
}

} // verus!
