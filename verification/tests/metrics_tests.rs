use channel_metrics::metrics::{ChannelError, ChannelMetrics, Metrics, PlaylistInfo};
use channel_metrics::stats::PartialBatchStats;

fn totals(
    video_count: u64,
    total_duration: u64,
    sentence_count: u64,
    total_sentence_length: u64,
    total_sentence_duration: u64,
) -> PartialBatchStats {
    PartialBatchStats {
        video_count,
        total_duration,
        sentence_count,
        total_sentence_length,
        total_sentence_duration,
    }
}

#[test]
fn zero_items_is_a_failure_not_a_record() {
    let r = Metrics::new("c".to_string(), "Name".to_string(), totals(0, 0, 0, 0, 0));
    assert_eq!(r.unwrap_err(), ChannelError::NoData);
}

#[test]
fn averages_are_computed_once_at_the_end() {
    let r = Metrics::new(
        "c".to_string(),
        "Name".to_string(),
        totals(2, 3000, 4, 100, 6000),
    )
    .unwrap();
    assert_eq!(r.link, "c");
    assert_eq!(r.channel_name, "Name");
    assert_eq!(r.video_count, 2);
    assert_eq!(r.average_duration, 1500);
    assert_eq!(r.average_sentence_length, Some(25));
    assert_eq!(r.average_sentence_duration, Some(1500));
}

#[test]
fn average_division_truncates() {
    let r = Metrics::new("c".to_string(), "N".to_string(), totals(3, 10, 0, 0, 0)).unwrap();
    assert_eq!(r.average_duration, 3);
}

#[test]
fn no_caption_entries_leaves_sentence_averages_undefined() {
    let r = Metrics::new("c".to_string(), "N".to_string(), totals(5, 500, 0, 0, 0)).unwrap();
    assert_eq!(r.average_sentence_duration, None);
    assert_eq!(r.average_sentence_length, None);
}

#[test]
fn missing_playlist_fails_resolution() {
    let r = ChannelMetrics::new("c".to_string(), None);
    assert_eq!(r.unwrap_err(), ChannelError::PlaylistMissing);
}

#[test]
fn missing_uploader_name_fails_resolution() {
    let r = ChannelMetrics::new("c".to_string(), Some(PlaylistInfo { uploader: None }));
    assert_eq!(r.unwrap_err(), ChannelError::NameMissing);
}

#[test]
fn resolution_keeps_link_and_name() {
    let r = ChannelMetrics::new(
        "c".to_string(),
        Some(PlaylistInfo { uploader: Some("The Channel".to_string()) }),
    )
    .unwrap();
    assert_eq!(r.link, "c");
    assert_eq!(r.name, "The Channel");
}

#[test]
fn error_messages_name_each_failure() {
    assert_eq!(ChannelError::PlaylistMissing.message(), "channel returned no playlist");
    assert_eq!(ChannelError::NameMissing.message(), "no channel name found");
    assert_eq!(ChannelError::NoData.message(), "channel produced no items");
}
