use tube_rs::auth::AuthData;
use tube_rs::request::{player_request, ClientInfo};
use tube_rs::settings::AppSettings;

#[test]
fn client_info_default_fields() {
    let c = ClientInfo::default("visitor".to_string());
    assert_eq!(c.client_name, "WEB");
    assert_eq!(c.os_name, "Windows");
    assert_eq!(c.os_version, "10.0");
    assert_eq!(c.client_version, "2.20240726.00.00");
    assert_eq!(c.platform, "DESKTOP");
    assert_eq!(c.visitor_data, "visitor");
}

#[test]
fn player_request_carries_auth() {
    let auth = AuthData {
        visitor_data: "v".to_string(),
        signature_timestamp: "20000".to_string(),
        po_token: None,
    };
    let r = player_request("abc", auth);
    assert_eq!(r.video_id, "abc");
    assert_eq!(r.content_check_ok, "true");
    assert_eq!(r.signature_timestamp, "20000");
    assert_eq!(r.client.visitor_data, "v");
    assert!(r.po_token.is_none());
}

#[test]
fn settings_default_is_empty() {
    let s = AppSettings::default();
    assert!(s.proxy.is_none());
    assert!(s.tube_api_url.is_none());
    assert!(s.api_key.is_none());
}
