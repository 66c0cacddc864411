//! Caption tracks and caption entries.
//!
//! An item of a channel may carry caption tracks, keyed by language and
//! split into manually written subtitles and automatically generated ones.
//! The policy here mirrors the data source's shape: manual subtitles are
//! preferred over automatic captions, and of the chosen track list only the
//! entries in the srv1 transport, with a fetchable locator, are used.
//! A fetched track is a sequence of timed text entries; its contribution to
//! the channel totals is one sentence per entry, the entry's character
//! count, and the entry's duration.

use vstd::prelude::*;

use crate::stats::{fold_stats, PartialBatchStats};

verus! {

/// One caption track as the paged item source describes it: a transport
/// format tag and an optional fetch locator.
pub struct CaptionTrack {
    pub ext: Option<String>,
    pub url: Option<String>,
}

/// One timed text entry of a fetched caption track; the duration is in
/// milliseconds.
pub struct CaptionEntry {
    pub text: String,
    pub duration_ms: u64,
}

/// The contribution of one caption entry to the running totals: one
/// sentence, its character count, its duration.
pub open spec fn entry_stat(e: CaptionEntry) -> PartialBatchStats {
    PartialBatchStats {
        video_count: 0,
        total_duration: 0,
        sentence_count: 1,
        total_sentence_length: if e.text@.len() > u64::MAX {
            u64::MAX
        } else {
            e.text@.len() as u64
        },
        total_sentence_duration: e.duration_ms,
    }
}

/// The totals of a whole fetched track.
pub open spec fn entries_stats(entries: Seq<CaptionEntry>) -> PartialBatchStats {
    fold_stats(entries.map_values(|e: CaptionEntry| entry_stat(e)))
}

/// Folds one fetched caption track into its `PartialBatchStats`.
#[verifier::loop_isolation(false)]
pub fn caption_stats(entries: &Vec<CaptionEntry>) -> (r: PartialBatchStats)
    ensures
        r == entries_stats(entries@),
{
    let ghost f = |e: CaptionEntry| entry_stat(e);
    let mut parts: Vec<PartialBatchStats> = Vec::new();
    let mut i: usize = 0;
    while i < entries.len()
        invariant
            i <= entries.len(),
            parts@ =~= entries@.take(i as int).map_values(f),
        decreases entries.len() - i,
    {
        let text_len = entries[i].text.as_str().unicode_len();
        let stat = PartialBatchStats {
            video_count: 0,
            total_duration: 0,
            sentence_count: 1,
            total_sentence_length: text_len as u64,
            total_sentence_duration: entries[i].duration_ms,
        };
        proof {
            assert(stat == f(entries@[i as int]));
            assert(entries@.take(i as int + 1).map_values(f) =~= entries@.take(
                i as int,
            ).map_values(f).push(f(entries@[i as int])));
        }
        parts.push(stat);
        i = i + 1;
    }
    proof {
        assert(entries@.take(entries@.len() as int) =~= entries@);
    }
    crate::stats::combine_all(&parts)
}

/// Manual subtitles are preferred; automatic captions are the fallback.
pub fn select_tracks<'a>(
    subtitles: &'a Option<Vec<CaptionTrack>>,
    automatic: &'a Option<Vec<CaptionTrack>>,
) -> (r: &'a Option<Vec<CaptionTrack>>)
    ensures
        subtitles is Some ==> r == subtitles,
        subtitles is None ==> r == automatic,
{
    match subtitles {
        Some(_) => subtitles,
        None => automatic,
    }
}

/// Whether a track is in the srv1 transport and carries a locator.
pub open spec fn is_srv1_with_url(t: CaptionTrack) -> bool {
    match t.ext {
        Some(e) => e@ == "srv1"@ && t.url is Some,
        None => false,
    }
}

/// The locator of a usable track, if any.
pub open spec fn srv1_url_of(t: CaptionTrack) -> Seq<Seq<char>> {
    match t.url {
        Some(u) => if is_srv1_with_url(t) {
            seq![u@]
        } else {
            Seq::empty()
        },
        None => Seq::empty(),
    }
}

/// The locators of all usable tracks, in track order.
pub open spec fn srv1_urls_of(tracks: Seq<CaptionTrack>) -> Seq<Seq<char>>
    decreases tracks.len(),
{
    if tracks.len() == 0 {
        Seq::empty()
    } else {
        srv1_urls_of(tracks.drop_last()) + srv1_url_of(tracks.last())
    }
}

/// Collects the fetch locators of the srv1 tracks of one track list.
#[verifier::loop_isolation(false)]
pub fn srv1_urls(tracks: &Vec<CaptionTrack>) -> (r: Vec<String>)
    ensures
        crate::views_of(r@) == srv1_urls_of(tracks@),
{
    let srv1: String = "srv1".to_owned();
    let mut r: Vec<String> = Vec::new();
    let mut i: usize = 0;
    while i < tracks.len()
        invariant
            i <= tracks.len(),
            srv1@ == "srv1"@,
            crate::views_of(r@) =~= srv1_urls_of(tracks@.take(i as int)),
        decreases tracks.len() - i,
    {
        proof {
            assert(tracks@.take(i as int + 1).drop_last() =~= tracks@.take(i as int));
            assert(srv1_urls_of(tracks@.take(i as int + 1)) == srv1_urls_of(
                tracks@.take(i as int),
            ) + srv1_url_of(tracks@[i as int]));
        }
        let ghost r_before = r@;
        match &tracks[i].ext {
            Some(e) => {
                if srv1.eq(e) {
                    match &tracks[i].url {
                        Some(u) => {
                            r.push(u.clone());
                            proof {
                                assert(is_srv1_with_url(tracks@[i as int]));
                                assert(crate::views_of(r@) =~= crate::views_of(r_before).push(
                                    u@,
                                ));
                            }
                        },
                        None => {},
                    }
                }
            },
            None => {},
        }
        proof {
            assert(crate::views_of(r@) =~= srv1_urls_of(tracks@.take(i as int + 1)));
        }
        i = i + 1;
    }
    proof {
        assert(tracks@.take(tracks@.len() as int) =~= tracks@);
    }
    r
}

} // verus!
