//! The player-info request: the client identity it claims and the body
//! that carries the video and the authorization material.
use vstd::prelude::*;
use crate::auth::AuthData;

verus! {

/// The client identity that the player endpoint is told about.
pub struct ClientInfo {
    pub client_name: String,
    pub os_name: String,
    pub os_version: String,
    pub client_version: String,
    pub platform: String,
    pub visitor_data: String,
}

/// The web client's version, sent in the body and in a header.
pub open spec fn client_version() -> Seq<char> {
    "2.20240726.00.00"@
}

impl ClientInfo {
    /// The fixed desktop web client, with the visitor data of this session.
    pub fn default(visitor_data: String) -> (r: ClientInfo)
        ensures
            r.client_name@ == "WEB"@,
            r.os_name@ == "Windows"@,
            r.os_version@ == "10.0"@,
            r.client_version@ == client_version(),
            r.platform@ == "DESKTOP"@,
            r.visitor_data == visitor_data,
    {
        ClientInfo {
            client_name: "WEB".to_owned(),
            os_name: "Windows".to_owned(),
            os_version: "10.0".to_owned(),
            client_version: "2.20240726.00.00".to_owned(),
            platform: "DESKTOP".to_owned(),
            visitor_data,
        }
    }
}

/// The body of a player-info request.
pub struct PlayerRequest {
    pub client: ClientInfo,
    pub video_id: String,
    pub content_check_ok: String,
    pub signature_timestamp: String,
    pub po_token: Option<String>,
}

/// The request for a video's player info under the given authorization.
pub fn player_request(video_id: &str, auth: AuthData) -> (r: PlayerRequest)
    ensures
        r.client.client_name@ == "WEB"@,
        r.client.os_name@ == "Windows"@,
        r.client.os_version@ == "10.0"@,
        r.client.client_version@ == client_version(),
        r.client.platform@ == "DESKTOP"@,
        r.client.visitor_data == auth.visitor_data,
        r.video_id@ == video_id@,
        r.content_check_ok@ == "true"@,
        r.signature_timestamp == auth.signature_timestamp,
        r.po_token == auth.po_token,
{
    let AuthData { visitor_data, signature_timestamp, po_token } = auth;
    PlayerRequest {
        client: ClientInfo::default(visitor_data),
        video_id: video_id.to_owned(),
        content_check_ok: "true".to_owned(),
        signature_timestamp,
        po_token,
    }
}

} // verus!
