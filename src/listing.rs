//! What the server tells clients about itself before they log in: the status
//! response and the brand.
use vstd::prelude::*;
use crate::clientbound::{
    plugin_message, status_response, string_bytes, CONFIG_PLUGIN_MESSAGE_ID, STATUS_RESPONSE_ID,
};
use crate::codec::{UncompressedPacket, MAX_FRAME_LEN};
use crate::server::{brand_bytes, brand_channel_bytes, Server};
use vstd::string::StringSliceAdditionalSpecFns;

verus! {

pub struct BikeShedServerListing {
    /// The status response, serialised once: it only changes when the
    /// server's description or player count does.
    pub status_response_json: String,
    /// The brand payload, built once.
    pub cached_server_brand: Vec<u8>,
}

impl BikeShedServerListing {
    pub open spec fn status_json(&self) -> Seq<char> {
        self.status_response_json@
    }

    pub open spec fn wf(&self) -> bool {
        &&& vstd::utf8::encode_utf8(self.status_response_json@).len() <= MAX_FRAME_LEN
        &&& self.cached_server_brand@ == brand_bytes()
    }

    /// A listing that answers status requests with `status_response_json`.
    pub fn new(status_response_json: String) -> (r: BikeShedServerListing)
        requires
            vstd::utf8::encode_utf8(status_response_json@).len() <= MAX_FRAME_LEN,
        ensures
            r.wf(),
            r.status_json() == status_response_json@,
    {
        BikeShedServerListing {
            status_response_json,
            cached_server_brand: Server::build_brand(),
        }
    }

    /// The brand plugin message.
    pub fn get_branding(&self) -> (r: UncompressedPacket)
        requires
            self.wf(),
        ensures
            r.id == CONFIG_PLUGIN_MESSAGE_ID,
            r.data@ == string_bytes(brand_channel_bytes()) + brand_bytes(),
    {
        let channel = "minecraft:brand";
        proof {
            reveal_strlit("minecraft:brand");
            vstd::string::is_ascii_spec_bytes(channel);
            assert(vstd::string::is_ascii(channel));
            assert(channel.spec_bytes() =~= brand_channel_bytes());
        }
        plugin_message(channel, &self.cached_server_brand)
    }

    /// The status response.
    pub fn get_status(&self) -> (r: UncompressedPacket)
        requires
            self.wf(),
        ensures
            r.id == STATUS_RESPONSE_ID,
            r.data@ == string_bytes(vstd::utf8::encode_utf8(self.status_response_json@)),
    {
        status_response(self.status_response_json.as_str())
    }
}

} // verus!
