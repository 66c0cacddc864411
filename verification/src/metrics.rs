//! Channel records: name resolution and the conversion of totals into
//! averages.
//!
//! A channel is processed all-or-nothing: either every step succeeds and
//! one immutable `Metrics` record is produced, or the channel fails and
//! stays pending.  A channel whose page range produced no items is a
//! failure, never a record with meaningless averages.

use vstd::prelude::*;

use crate::stats::PartialBatchStats;

verus! {

/// Why a channel failed this round.  Failures are per channel: the channel
/// stays in the pending set and is retried in a later round.
#[derive(Clone, Copy, Debug, PartialEq, Eq, Structural)]
pub enum ChannelError {
    /// The channel info source returned no playlist for the identifier.
    PlaylistMissing,
    /// The playlist carried no uploader name.
    NameMissing,
    /// Aggregation over the whole page range observed zero items, so
    /// there is nothing meaningful to average.
    NoData,
}

impl ChannelError {
    /// A short description, for callers that report failures.
    pub fn message(&self) -> (r: &'static str)
        ensures
            *self == ChannelError::PlaylistMissing ==> r@ == "channel returned no playlist"@,
            *self == ChannelError::NameMissing ==> r@ == "no channel name found"@,
            *self == ChannelError::NoData ==> r@ == "channel produced no items"@,
    {
        match self {
            ChannelError::PlaylistMissing => "channel returned no playlist",
            ChannelError::NameMissing => "no channel name found",
            ChannelError::NoData => "channel produced no items",
        }
    }
}

/// What the channel info source reports for an identifier: the playlist's
/// uploader name, when the playlist carries one.
#[derive(Debug)]
pub struct PlaylistInfo {
    pub uploader: Option<String>,
}

/// A resolved channel: its identifier and its display name.
#[derive(Debug)]
pub struct ChannelMetrics {
    pub link: String,
    pub name: String,
}

impl ChannelMetrics {
    /// Resolves a channel from what the info source returned: no playlist
    /// and no uploader name are each a failure of their own.
    pub fn new(link: String, playlist: Option<PlaylistInfo>) -> (r: Result<
        ChannelMetrics,
        ChannelError,
    >)
        ensures
            r == (match playlist {
                Option::None => Err::<ChannelMetrics, ChannelError>(ChannelError::PlaylistMissing),
                Option::Some(p) => match p.uploader {
                    Option::None => Err::<ChannelMetrics, ChannelError>(ChannelError::NameMissing),
                    Option::Some(name) => Ok::<ChannelMetrics, ChannelError>(
                        (ChannelMetrics { link, name }),
                    ),
                },
            }),
    {
        match playlist {
            None => Err(ChannelError::PlaylistMissing),
            Some(p) => match p.uploader {
                None => Err(ChannelError::NameMissing),
                Some(name) => Ok(ChannelMetrics { link, name }),
            },
        }
    }
}

/// The finished record of one successfully processed channel.  Durations
/// are in milliseconds; the averages over caption entries are `None`
/// exactly when the channel had no caption entries at all.
#[derive(Debug)]
pub struct Metrics {
    pub link: String,
    pub channel_name: String,
    pub video_count: u64,
    pub average_duration: u64,
    pub average_sentence_duration: Option<u64>,
    pub average_sentence_length: Option<u64>,
}

impl Metrics {
    /// The record a channel's totals convert to, once the channel resolved
    /// to `name` and aggregation produced `totals` with at least one item.
    pub open spec fn spec_of(link: String, channel_name: String, totals: PartialBatchStats) -> Metrics
        recommends
            totals.video_count > 0,
    {
        Metrics {
            link,
            channel_name,
            video_count: totals.video_count,
            average_duration: (totals.total_duration / totals.video_count) as u64,
            average_sentence_duration: if totals.sentence_count == 0 {
                Option::None
            } else {
                Option::Some((totals.total_sentence_duration / totals.sentence_count) as u64)
            },
            average_sentence_length: if totals.sentence_count == 0 {
                Option::None
            } else {
                Option::Some((totals.total_sentence_length / totals.sentence_count) as u64)
            },
        }
    }

    /// Converts a channel's folded totals into averages, once, at the very
    /// end.  A channel with zero items is a failure, never a record.
    pub fn new(link: String, channel_name: String, totals: PartialBatchStats) -> (r: Result<
        Metrics,
        ChannelError,
    >)
        ensures
            r == (if totals.video_count == 0 {
                Err::<Metrics, ChannelError>(ChannelError::NoData)
            } else {
                Ok::<Metrics, ChannelError>(Metrics::spec_of(link, channel_name, totals))
            }),
    {
        if totals.video_count == 0 {
            Err(ChannelError::NoData)
        } else {
            let average_duration = totals.total_duration / totals.video_count;
            let (average_sentence_duration, average_sentence_length) = if totals.sentence_count
                == 0 {
                (None, None)
            } else {
                (
                    Some(totals.total_sentence_duration / totals.sentence_count),
                    Some(totals.total_sentence_length / totals.sentence_count),
                )
            };
            Ok(
                Metrics {
                    link,
                    channel_name,
                    video_count: totals.video_count,
                    average_duration,
                    average_sentence_duration,
                    average_sentence_length,
                },
            )
        }
    }
}

} // verus!
