use tube_rs::audio::PipelineError;
use tube_rs::video_id::{extract_id, resolve_video_id};

#[test]
fn extract_id_works() {
    let test_cases = vec![
        ("https://youtu.be/FdeioVndUhs", Some("FdeioVndUhs".to_string())),
        ("https://www.youtube.com/watch?v=FdeioVndUhs", Some("FdeioVndUhs".to_string())),
        ("https://youtube.com/watch?v=FdeioVndUhs", Some("FdeioVndUhs".to_string())),
        ("https://www.youtube.com/v/FdeioVndUhs", Some("FdeioVndUhs".to_string())),
        (
            "https://www.youtube.com/watch?v=s78hvV3QLUE&ab_channel=LexFridman",
            Some("s78hvV3QLUE".to_string()),
        ),
        ("https://www.youtube.com/embed/FdeioVndUhs", Some("FdeioVndUhs".to_string())),
        ("https://www.youtube.com/shorts/FdeioVndUhs", Some("FdeioVndUhs".to_string())),
        ("https://youtu.be/FdeioVndUhs?t=30", Some("FdeioVndUhs".to_string())),
        (
            "https://www.youtube.com/watch?v=FdeioVndUhs&feature=share",
            Some("FdeioVndUhs".to_string()),
        ),
        (
            "https://www.youtube.com/watch?v=FdeioVndUhs&list=PL123",
            Some("FdeioVndUhs".to_string()),
        ),
        (
            "https://www.youtube.com/watch?list=PL123&v=FdeioVndUhs",
            Some("FdeioVndUhs".to_string()),
        ),
        ("https://invalid.url/FdeioVndUhs", None),
        ("https://www.youtube.com/", None),
        ("https://youtu.be/", None),
    ];

    for (input, expected) in test_cases {
        let video_id = extract_id(input);
        assert_eq!(video_id, expected);
    }
}

#[test]
fn extract_id_keeps_dashes_and_underscores() {
    assert_eq!(extract_id("https://youtu.be/a-b_C9?x=1"), Some("a-b_C9".to_string()));
}

#[test]
fn extract_id_skips_anchor_without_identifier() {
    // the first `v=` is followed by `&`, so the later one is taken
    assert_eq!(
        extract_id("https://www.youtube.com/watch?v=&v=abc123"),
        Some("abc123".to_string())
    );
}

#[test]
fn extract_id_empty_input() {
    assert_eq!(extract_id(""), None);
}

#[test]
fn resolve_video_id_reports_invalid_url() {
    assert_eq!(resolve_video_id("https://www.youtube.com/"), Err(PipelineError::InvalidUrl));
    assert_eq!(resolve_video_id("https://youtu.be/abc"), Ok("abc".to_string()));
}
