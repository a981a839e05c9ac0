use tube_rs::auth::{auth_from_pages, parse_auth_from_content, player_script_url, AnchorKind, AuthError};

const PAGE: &str = r#"<html><script src="/s/player/abc123/player_ias.vflset/en_US/base.js"></script>
{"key":"visitor_data","value":"CgtWaXNpdG9y"}</html>"#;

#[test]
fn player_script_path_is_found() {
    let r = parse_auth_from_content(AnchorKind::PlayerScript, PAGE);
    assert_eq!(r, Ok("/s/player/abc123/player_ias.vflset/en_US/base.js".to_string()));
}

#[test]
fn player_script_url_is_absolute() {
    let r = player_script_url(PAGE);
    assert_eq!(
        r,
        Ok("https://www.youtube.com/s/player/abc123/player_ias.vflset/en_US/base.js".to_string())
    );
}

#[test]
fn player_script_path_takes_last_base_js_of_the_run() {
    let r = parse_auth_from_content(AnchorKind::PlayerScript, "x/s/player/a1/b/base.js/base.jsq\"");
    assert_eq!(r, Ok("/s/player/a1/b/base.js/base.js".to_string()));
}

#[test]
fn player_script_path_missing() {
    let r = parse_auth_from_content(AnchorKind::PlayerScript, "/s/player//x/base.js");
    assert_eq!(r, Err(AuthError::AnchorNotFound(AnchorKind::PlayerScript)));
}

#[test]
fn signature_timestamp_digits() {
    let r = parse_auth_from_content(AnchorKind::SignatureTimestamp, "a,signatureTimestamp:19999,b");
    assert_eq!(r, Ok("19999".to_string()));
}

#[test]
fn signature_timestamp_may_be_empty() {
    let r = parse_auth_from_content(AnchorKind::SignatureTimestamp, "signatureTimestamp:x");
    assert_eq!(r, Ok("".to_string()));
}

#[test]
fn visitor_data_value() {
    let r = parse_auth_from_content(AnchorKind::VisitorData, PAGE);
    assert_eq!(r, Ok("CgtWaXNpdG9y".to_string()));
}

#[test]
fn visitor_data_empty_value_is_skipped() {
    let text = r#"{"key":"visitor_data","value":""}{"key":"visitor_data","value":"Zz"}"#;
    let r = parse_auth_from_content(AnchorKind::VisitorData, text);
    assert_eq!(r, Ok("Zz".to_string()));
}

#[test]
fn auth_from_pages_collects_both_values() {
    let a = auth_from_pages(PAGE, "var q={signatureTimestamp:20000}").ok().unwrap();
    assert_eq!(a.signature_timestamp, "20000");
    assert_eq!(a.visitor_data, "CgtWaXNpdG9y");
    assert!(a.po_token.is_none());
}

#[test]
fn auth_from_pages_reports_missing_signature_first() {
    let r = auth_from_pages("nothing", "nothing").err();
    assert_eq!(r, Some(AuthError::AnchorNotFound(AnchorKind::SignatureTimestamp)));
    let r = auth_from_pages("nothing", "signatureTimestamp:1").err();
    assert_eq!(r, Some(AuthError::AnchorNotFound(AnchorKind::VisitorData)));
}
