use channel_metrics::aggregate::{
    caption_urls, item_totals, page_stats, total_of_windows, windows, Item,
};
use channel_metrics::captions::{CaptionEntry, CaptionTrack};
use channel_metrics::stats::PartialBatchStats;

fn item(duration_ms: u64) -> Item {
    Item { duration_ms, subtitles: None, automatic_captions: None }
}

fn srv1_track(url: &str) -> CaptionTrack {
    CaptionTrack { ext: Some("srv1".to_string()), url: Some(url.to_string()) }
}

fn entry(text: &str, duration_ms: u64) -> CaptionEntry {
    CaptionEntry { text: text.to_string(), duration_ms }
}

#[test]
fn default_range_splits_into_fifty_windows() {
    let w = windows(5000, 100);
    assert_eq!(w.len(), 50);
    assert_eq!(w[0], (1, 100));
    assert_eq!(w[1], (101, 200));
    assert_eq!(w[49], (4901, 5000));
}

#[test]
fn trailing_partial_window_is_not_requested() {
    let w = windows(250, 100);
    assert_eq!(w, vec![(1, 100), (101, 200)]);
}

#[test]
fn range_shorter_than_one_window_yields_no_windows() {
    assert!(windows(99, 100).is_empty());
}

#[test]
fn item_totals_counts_items_and_sums_durations() {
    let items = vec![item(1000), item(2500), item(500)];
    let r = item_totals(&items);
    assert_eq!(r.video_count, 3);
    assert_eq!(r.total_duration, 4000);
    assert_eq!(r.sentence_count, 0);
}

#[test]
fn one_failed_caption_fetch_keeps_item_totals() {
    let items = vec![item(1000), item(2000)];
    let all_good = vec![
        Some(vec![entry("one", 700)]),
        Some(vec![entry("two", 800)]),
    ];
    let one_failed = vec![Some(vec![entry("one", 700)]), None];

    let full = page_stats(&items, &all_good);
    let partial = page_stats(&items, &one_failed);

    assert_eq!(partial.video_count, full.video_count);
    assert_eq!(partial.total_duration, full.total_duration);
    assert_eq!(full.sentence_count, 2);
    assert_eq!(partial.sentence_count, 1);
    assert_eq!(partial.total_sentence_duration, 700);
}

#[test]
fn page_stats_combines_items_and_caption_entries() {
    let items = vec![item(60000), item(30000)];
    let outcomes = vec![Some(vec![entry("abcd", 1000), entry("ef", 2000)])];
    let r = page_stats(&items, &outcomes);
    assert_eq!(r.video_count, 2);
    assert_eq!(r.total_duration, 90000);
    assert_eq!(r.sentence_count, 2);
    assert_eq!(r.total_sentence_length, 6);
    assert_eq!(r.total_sentence_duration, 3000);
}

#[test]
fn failed_windows_contribute_the_identity() {
    let a = PartialBatchStats {
        video_count: 2,
        total_duration: 100,
        sentence_count: 1,
        total_sentence_length: 5,
        total_sentence_duration: 50,
    };
    let b = PartialBatchStats {
        video_count: 3,
        total_duration: 200,
        sentence_count: 0,
        total_sentence_length: 0,
        total_sentence_duration: 0,
    };
    let outcomes = vec![Some(a), None, Some(b)];
    assert_eq!(total_of_windows(&outcomes), a.combine(b));
}

#[test]
fn total_of_no_windows_is_the_identity() {
    let outcomes: Vec<Option<PartialBatchStats>> = Vec::new();
    assert_eq!(total_of_windows(&outcomes), PartialBatchStats::zero());
}

#[test]
fn caption_urls_walks_items_in_order() {
    let with_manual = Item {
        duration_ms: 10,
        subtitles: Some(vec![srv1_track("m1")]),
        automatic_captions: Some(vec![srv1_track("hidden-by-manual")]),
    };
    let with_auto = Item {
        duration_ms: 20,
        subtitles: None,
        automatic_captions: Some(vec![srv1_track("a1"), srv1_track("a2")]),
    };
    let bare = item(30);
    let urls = caption_urls(&vec![with_manual, bare, with_auto]);
    assert_eq!(urls, vec!["m1".to_string(), "a1".to_string(), "a2".to_string()]);
}
