use channel_metrics::captions::{caption_stats, select_tracks, srv1_urls, CaptionEntry, CaptionTrack};
use channel_metrics::stats::PartialBatchStats;

fn entry(text: &str, duration_ms: u64) -> CaptionEntry {
    CaptionEntry { text: text.to_string(), duration_ms }
}

fn track(ext: Option<&str>, url: Option<&str>) -> CaptionTrack {
    CaptionTrack {
        ext: ext.map(|e| e.to_string()),
        url: url.map(|u| u.to_string()),
    }
}

#[test]
fn caption_stats_counts_entries_characters_and_durations() {
    let entries = vec![entry("hello world", 1500), entry("xin chào", 2000)];
    let r = caption_stats(&entries);
    assert_eq!(r.sentence_count, 2);
    // character counts: "hello world" has 11, "xin chào" has 8
    assert_eq!(r.total_sentence_length, 19);
    assert_eq!(r.total_sentence_duration, 3500);
    assert_eq!(r.video_count, 0);
    assert_eq!(r.total_duration, 0);
}

#[test]
fn caption_stats_of_nothing_is_the_identity() {
    let entries: Vec<CaptionEntry> = Vec::new();
    assert_eq!(caption_stats(&entries), PartialBatchStats::zero());
}

#[test]
fn manual_subtitles_beat_automatic_captions() {
    let manual = Some(vec![track(Some("srv1"), Some("m"))]);
    let auto = Some(vec![track(Some("srv1"), Some("a"))]);
    let chosen = select_tracks(&manual, &auto);
    let urls = srv1_urls(chosen.as_ref().unwrap());
    assert_eq!(urls, vec!["m".to_string()]);
}

#[test]
fn automatic_captions_are_the_fallback() {
    let manual: Option<Vec<CaptionTrack>> = None;
    let auto = Some(vec![track(Some("srv1"), Some("a"))]);
    let chosen = select_tracks(&manual, &auto);
    let urls = srv1_urls(chosen.as_ref().unwrap());
    assert_eq!(urls, vec!["a".to_string()]);
}

#[test]
fn no_tracks_at_all_selects_nothing() {
    let manual: Option<Vec<CaptionTrack>> = None;
    let auto: Option<Vec<CaptionTrack>> = None;
    assert!(select_tracks(&manual, &auto).is_none());
}

#[test]
fn srv1_urls_keeps_only_srv1_tracks_with_locators() {
    let tracks = vec![
        track(Some("vtt"), Some("skip-wrong-format")),
        track(Some("srv1"), Some("first")),
        track(Some("srv1"), None),
        track(None, Some("skip-no-format")),
        track(Some("srv1"), Some("second")),
    ];
    assert_eq!(srv1_urls(&tracks), vec!["first".to_string(), "second".to_string()]);
}

#[test]
fn srv1_urls_of_empty_list_is_empty() {
    let tracks: Vec<CaptionTrack> = Vec::new();
    assert!(srv1_urls(&tracks).is_empty());
}
