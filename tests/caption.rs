use tube_rs::caption::{
    contains_text, preprocess_xml, remove_text, select_caption, subtitles_from_cues, trim_text,
    CaptionItem, TimedText,
};

fn track(lang: &str) -> CaptionItem {
    CaptionItem { base_url: format!("https://example.com/{lang}"), vss_id: lang.to_string() }
}

fn cue(start: &str, dur: &str, text: &str) -> TimedText {
    TimedText { start: start.to_string(), dur: dur.to_string(), text: text.to_string() }
}

#[test]
fn caption_prefers_english() {
    let tracks = vec![track("es"), track("a.en"), track("fr")];
    assert_eq!(select_caption(&tracks), Some(1));
}

#[test]
fn caption_single_track_taken_regardless_of_language() {
    let tracks = vec![track("es")];
    assert_eq!(select_caption(&tracks), Some(0));
}

#[test]
fn caption_without_english_takes_first() {
    let tracks = vec![track("es"), track("fr")];
    assert_eq!(select_caption(&tracks), Some(0));
}

#[test]
fn caption_empty_list() {
    assert_eq!(select_caption(&Vec::new()), None);
}

#[test]
fn contains_text_cases() {
    assert!(contains_text("a.en", "en"));
    assert!(!contains_text("e", "en"));
    assert!(contains_text("", ""));
}

#[test]
fn trim_and_remove() {
    assert_eq!(trim_text("  a b \n"), "a b");
    assert_eq!(trim_text(" \t "), "");
    assert_eq!(remove_text("xabyabz", "ab"), "xyz");
    assert_eq!(remove_text("aaa", "aa"), "a");
}

#[test]
fn preprocess_strips_double_quoted_declaration() {
    let doc = "\n<?xml version=\"1.0\" encoding=\"utf-8\" ?><transcript></transcript>\n  ";
    assert_eq!(preprocess_xml(doc), "<transcript></transcript>");
}

#[test]
fn preprocess_strips_single_quoted_declaration() {
    let doc = "<?xml version='1.0' encoding='UTF-8'?>\n <transcript/>";
    assert_eq!(preprocess_xml(doc), "<transcript/>");
}

#[test]
fn cue_decodes_to_milliseconds() {
    let entries = subtitles_from_cues(&vec![cue("2.4", "2.49", "Recently")]);
    assert_eq!(entries.len(), 1);
    assert_eq!(entries[0].timestamp, 2400);
    assert_eq!(entries[0].duration, 2490);
    assert_eq!(entries[0].text, "Recently");
}

#[test]
fn cues_keep_document_order() {
    let entries = subtitles_from_cues(&vec![cue("2.4", "2.49", "a"), cue("4.89", "5", "b")]);
    assert_eq!(entries.len(), 2);
    assert_eq!(entries[1].timestamp, 4890);
    assert_eq!(entries[1].duration, 5000);
    assert_eq!(entries[1].text, "b");
}

#[test]
fn malformed_cue_gives_no_subtitles() {
    let entries = subtitles_from_cues(&vec![cue("2.4", "2.49", "a"), cue("x", "5", "b")]);
    assert!(entries.is_empty());
    let too_long = subtitles_from_cues(&vec![cue("0", "4294968", "c")]);
    assert!(too_long.is_empty());
}
