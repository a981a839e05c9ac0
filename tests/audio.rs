use tube_rs::audio::{
    audio_data_from_response, select_audio_format, thumbnail_url, wants_external_audio,
    watch_url, AudioStream, Format, PipelineError, PlayerResponse, VideoDetail,
};
use tube_rs::caption::CaptionItem;

fn format(mime: &str, bitrate: u32, url: &str) -> Format {
    Format {
        mime_type: mime.to_string(),
        bitrate,
        url: url.to_string(),
        content_length: "1000".to_string(),
        last_modified: "1722470400".to_string(),
    }
}

fn details() -> VideoDetail {
    VideoDetail {
        title: "A talk".to_string(),
        length_seconds: "61".to_string(),
        keywords: Some(vec!["k".to_string()]),
        short_description: None,
    }
}

fn response(formats: Vec<Format>, captions: Option<Vec<CaptionItem>>) -> PlayerResponse {
    PlayerResponse { adaptive_formats: Some(formats), caption_tracks: captions, video_details: details() }
}

fn external() -> AudioStream {
    AudioStream { url: "https://ext/a".to_string(), filesize: 77, mime_type: "audio/mp4".to_string() }
}

#[test]
fn least_bitrate_audio_is_selected() {
    let fs = vec![
        format("video/mp4", 10, "v"),
        format("audio/webm", 128, "a128"),
        format("audio/webm", 64, "a64"),
        format("audio/mp4", 256, "a256"),
    ];
    assert_eq!(select_audio_format(&fs), Some(2));
}

#[test]
fn equal_bitrates_take_the_first() {
    let fs = vec![format("audio/webm", 64, "x"), format("audio/mp4", 64, "y")];
    assert_eq!(select_audio_format(&fs), Some(0));
}

#[test]
fn no_audio_format() {
    let fs = vec![format("video/mp4", 10, "v")];
    assert_eq!(select_audio_format(&fs), None);
    let r = audio_data_from_response("id", response(fs, None), None);
    assert_eq!(r.err(), Some(PipelineError::NoAudioFormat));
    let absent = PlayerResponse { adaptive_formats: None, caption_tracks: None, video_details: details() };
    assert_eq!(audio_data_from_response("id", absent, None).err(), Some(PipelineError::NoAudioFormat));
}

#[test]
fn record_from_local_format_and_caption() {
    let fs = vec![format("audio/webm", 128, "a128"), format("audio/webm", 64, "a64")];
    let caps = vec![
        CaptionItem { base_url: "https://c/es".to_string(), vss_id: "es".to_string() },
        CaptionItem { base_url: "https://c/en".to_string(), vss_id: ".en".to_string() },
    ];
    let d = audio_data_from_response("abc", response(fs, Some(caps)), Some(external())).ok().unwrap();
    assert_eq!(d.video_id, "abc");
    assert_eq!(d.title, "A talk");
    assert_eq!(d.duration, 61);
    assert_eq!(d.timestamp, 1722470400);
    assert_eq!(d.keywords, Some(vec!["k".to_string()]));
    assert_eq!(d.description, None);
    assert_eq!(d.caption_lang, Some(".en".to_string()));
    assert_eq!(d.caption_url, Some("https://c/en".to_string()));
    assert_eq!(d.audio_url, "a64");
    assert_eq!(d.audio_filesize, 1000);
    assert_eq!(d.mime_type, "audio/webm");
    assert_eq!(d.thumbnail_url, "https://i.ytimg.com/vi/abc/sddefault.jpg");
}

#[test]
fn external_link_replaces_local_without_captions() {
    let fs = vec![format("audio/webm", 64, "a64")];
    let d = audio_data_from_response("abc", response(fs, None), Some(external())).ok().unwrap();
    assert_eq!(d.caption_lang, None);
    assert_eq!(d.audio_url, "https://ext/a");
    assert_eq!(d.audio_filesize, 77);
    assert_eq!(d.mime_type, "audio/mp4");
}

#[test]
fn bad_content_length_reads_as_zero() {
    let mut f = format("audio/webm", 64, "a64");
    f.content_length = "n/a".to_string();
    let d = audio_data_from_response("abc", response(vec![f], None), None).ok().unwrap();
    assert_eq!(d.audio_filesize, 0);
    assert_eq!(d.audio_url, "a64");
}

#[test]
fn bad_duration_or_timestamp_is_metadata_unavailable() {
    let mut f = format("audio/webm", 64, "a64");
    f.last_modified = "soon".to_string();
    let r = audio_data_from_response("abc", response(vec![f], None), None);
    assert_eq!(r.err(), Some(PipelineError::MetadataUnavailable));
    let mut resp = response(vec![format("audio/webm", 64, "a64")], None);
    resp.video_details.length_seconds = "1:01".to_string();
    let r = audio_data_from_response("abc", resp, None);
    assert_eq!(r.err(), Some(PipelineError::MetadataUnavailable));
}

#[test]
fn external_resolver_wanted_only_without_captions() {
    let fs = vec![format("audio/webm", 64, "a64")];
    assert!(wants_external_audio(&response(fs, None), true));
    let fs = vec![format("audio/webm", 64, "a64")];
    assert!(!wants_external_audio(&response(fs, None), false));
    let caps = vec![CaptionItem { base_url: "u".to_string(), vss_id: "es".to_string() }];
    let fs = vec![format("audio/webm", 64, "a64")];
    assert!(!wants_external_audio(&response(fs, Some(caps)), true));
    let fs = vec![format("audio/webm", 64, "a64")];
    assert!(wants_external_audio(&response(fs, Some(Vec::new())), true));
}

#[test]
fn derived_urls() {
    assert_eq!(thumbnail_url("FdeioVndUhs"), "https://i.ytimg.com/vi/FdeioVndUhs/sddefault.jpg");
    assert_eq!(watch_url("FdeioVndUhs"), "https://www.youtube.com/watch?v=FdeioVndUhs");
}
