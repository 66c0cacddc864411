//! The batch aggregator: page windows, per-page totals, and the channel
//! fan-in.
//!
//! A channel's item range `[1, max_items]` is split into consecutive
//! fixed-size windows; every window is fetched by an unverified caller,
//! which hands the items of each page back as plain values.  A page's
//! totals come from its items directly, plus the totals of every caption
//! track that could be fetched; a caption fetch that failed contributes
//! nothing, and a page that failed contributes the identity.  The totals
//! of all windows are folded with the associative combine operation, so
//! arrival order cannot matter.

use vstd::arithmetic::div_mod::lemma_fundamental_div_mod;
use vstd::arithmetic::div_mod::lemma_mod_division_less_than_divisor;
use vstd::arithmetic::mul::lemma_mul_inequality;
use vstd::prelude::*;

use crate::captions::{
    entries_stats, srv1_urls, srv1_urls_of, CaptionEntry, CaptionTrack,
};
use crate::stats::{combine_all, fold_stats, sat_add, sat_u64, PartialBatchStats};

verus! {

/// One item of a channel's paginated list, as the paged item source
/// reports it: a duration in milliseconds and the caption tracks by kind.
pub struct Item {
    pub duration_ms: u64,
    pub subtitles: Option<Vec<CaptionTrack>>,
    pub automatic_captions: Option<Vec<CaptionTrack>>,
}

/// Saturating sum of the item durations of a page.
pub open spec fn total_duration_of(items: Seq<Item>) -> u64
    decreases items.len(),
{
    if items.len() == 0 {
        0u64
    } else {
        sat_add(total_duration_of(items.drop_last()), items.last().duration_ms)
    }
}

/// The item-level part of a page's totals: the item count and the summed
/// item durations; caption fields stay zero.
pub open spec fn items_stat(items: Seq<Item>) -> PartialBatchStats {
    PartialBatchStats {
        video_count: sat_u64(items.len()),
        total_duration: total_duration_of(items),
        sentence_count: 0,
        total_sentence_length: 0,
        total_sentence_duration: 0,
    }
}

/// The caption tracks an item offers: manual subtitles if present, else
/// automatic captions, else none.
pub open spec fn selected_tracks(it: Item) -> Seq<CaptionTrack> {
    match it.subtitles {
        Some(s) => s@,
        None => match it.automatic_captions {
            Some(a) => a@,
            None => Seq::empty(),
        },
    }
}

/// The caption locators one item contributes to a page's fan-out.
pub open spec fn item_urls(it: Item) -> Seq<Seq<char>> {
    srv1_urls_of(selected_tracks(it))
}

/// The caption locators of a whole page, in item order.
pub open spec fn page_urls(items: Seq<Item>) -> Seq<Seq<char>>
    decreases items.len(),
{
    if items.len() == 0 {
        Seq::empty()
    } else {
        page_urls(items.drop_last()) + item_urls(items.last())
    }
}

/// What one caption fetch outcome contributes: a failed fetch contributes
/// the identity.
pub open spec fn outcome_stat(o: Option<Vec<CaptionEntry>>) -> PartialBatchStats {
    match o {
        Some(entries) => entries_stats(entries@),
        None => PartialBatchStats::spec_zero(),
    }
}

/// The caption-level part of a page's totals.
pub open spec fn outcomes_stats(outcomes: Seq<Option<Vec<CaptionEntry>>>) -> PartialBatchStats {
    fold_stats(outcomes.map_values(|o: Option<Vec<CaptionEntry>>| outcome_stat(o)))
}

/// A page's totals: its items' contribution combined with the contribution
/// of every caption fetch outcome of the page.
pub open spec fn page_stats_spec(
    items: Seq<Item>,
    outcomes: Seq<Option<Vec<CaptionEntry>>>,
) -> PartialBatchStats {
    items_stat(items).spec_combine(outcomes_stats(outcomes))
}

/// Counts the items of a page and sums their durations.
#[verifier::loop_isolation(false)]
pub fn item_totals(items: &Vec<Item>) -> (r: PartialBatchStats)
    ensures
        r == items_stat(items@),
{
    let mut total: u64 = 0;
    let mut i: usize = 0;
    while i < items.len()
        invariant
            i <= items.len(),
            total == total_duration_of(items@.take(i as int)),
        decreases items.len() - i,
    {
        proof {
            assert(items@.take(i as int + 1).drop_last() =~= items@.take(i as int));
        }
        total = total.saturating_add(items[i].duration_ms);
        i = i + 1;
    }
    proof {
        assert(items@.take(items@.len() as int) =~= items@);
    }
    PartialBatchStats {
        video_count: items.len() as u64,
        total_duration: total,
        sentence_count: 0,
        total_sentence_length: 0,
        total_sentence_duration: 0,
    }
}

/// Collects the caption locators of every item of a page, in item order.
#[verifier::loop_isolation(false)]
pub fn caption_urls(items: &Vec<Item>) -> (r: Vec<String>)
    ensures
        crate::views_of(r@) == page_urls(items@),
{
    let mut r: Vec<String> = Vec::new();
    let mut i: usize = 0;
    while i < items.len()
        invariant
            i <= items.len(),
            crate::views_of(r@) =~= page_urls(items@.take(i as int)),
        decreases items.len() - i,
    {
        proof {
            assert(items@.take(i as int + 1).drop_last() =~= items@.take(i as int));
        }
        let ghost r_before = r@;
        let tracks = crate::captions::select_tracks(
            &items[i].subtitles,
            &items[i].automatic_captions,
        );
        match tracks {
            Some(ts) => {
                let mut part = srv1_urls(ts);
                let ghost part_snap = part@;
                r.append(&mut part);
                proof {
                    assert(r@ =~= r_before + part_snap);
                    assert(crate::views_of(r_before + part_snap) =~= crate::views_of(r_before)
                        + crate::views_of(part_snap));
                    assert(crate::views_of(part_snap) == item_urls(items@[i as int]));
                }
            },
            None => {
                proof {
                    assert(item_urls(items@[i as int]) =~= Seq::<Seq<char>>::empty());
                    assert(page_urls(items@.take(i as int + 1)) =~= page_urls(
                        items@.take(i as int),
                    ));
                }
            },
        }
        i = i + 1;
    }
    proof {
        assert(items@.take(items@.len() as int) =~= items@);
    }
    r
}

/// Combines the items of a page with its caption fetch outcomes.
#[verifier::loop_isolation(false)]
pub fn page_stats(
    items: &Vec<Item>,
    caption_results: &Vec<Option<Vec<CaptionEntry>>>,
) -> (r: PartialBatchStats)
    ensures
        r == page_stats_spec(items@, caption_results@),
{
    let ghost g = |o: Option<Vec<CaptionEntry>>| outcome_stat(o);
    let base = item_totals(items);
    let mut parts: Vec<PartialBatchStats> = Vec::new();
    let mut i: usize = 0;
    while i < caption_results.len()
        invariant
            i <= caption_results.len(),
            parts@ =~= caption_results@.take(i as int).map_values(g),
        decreases caption_results.len() - i,
    {
        let stat = match &caption_results[i] {
            Some(entries) => crate::captions::caption_stats(entries),
            None => PartialBatchStats::zero(),
        };
        proof {
            assert(stat == g(caption_results@[i as int]));
            assert(caption_results@.take(i as int + 1).map_values(g) =~= caption_results@.take(
                i as int,
            ).map_values(g).push(g(caption_results@[i as int])));
        }
        parts.push(stat);
        i = i + 1;
    }
    proof {
        assert(caption_results@.take(caption_results@.len() as int) =~= caption_results@);
        assert(caption_results@.map_values(g) =~= caption_results@.map_values(
            |o: Option<Vec<CaptionEntry>>| outcome_stat(o),
        ));
    }
    let caps = combine_all(&parts);
    base.combine(caps)
}

/// What one window outcome contributes to the channel total: a window that
/// failed, or returned no items, contributes the identity.
pub open spec fn window_stat(o: Option<PartialBatchStats>) -> PartialBatchStats {
    match o {
        Some(s) => s,
        None => PartialBatchStats::spec_zero(),
    }
}

/// The channel total of a sequence of window outcomes.
pub open spec fn windows_total(outcomes: Seq<Option<PartialBatchStats>>) -> PartialBatchStats {
    fold_stats(outcomes.map_values(|o: Option<PartialBatchStats>| window_stat(o)))
}

/// Folds the outcome of every page window of a channel into one total.
#[verifier::loop_isolation(false)]
pub fn total_of_windows(outcomes: &Vec<Option<PartialBatchStats>>) -> (r: PartialBatchStats)
    ensures
        r == windows_total(outcomes@),
{
    let ghost g = |o: Option<PartialBatchStats>| window_stat(o);
    let mut parts: Vec<PartialBatchStats> = Vec::new();
    let mut i: usize = 0;
    while i < outcomes.len()
        invariant
            i <= outcomes.len(),
            parts@ =~= outcomes@.take(i as int).map_values(g),
        decreases outcomes.len() - i,
    {
        let stat = match &outcomes[i] {
            Some(s) => *s,
            None => PartialBatchStats::zero(),
        };
        proof {
            assert(stat == g(outcomes@[i as int]));
            assert(outcomes@.take(i as int + 1).map_values(g) =~= outcomes@.take(
                i as int,
            ).map_values(g).push(g(outcomes@[i as int])));
        }
        parts.push(stat);
        i = i + 1;
    }
    proof {
        assert(outcomes@.take(outcomes@.len() as int) =~= outcomes@);
        assert(outcomes@.map_values(g) =~= outcomes@.map_values(
            |o: Option<PartialBatchStats>| window_stat(o),
        ));
    }
    combine_all(&parts)
}

/// Splits the range `[1, max_items]` into consecutive fixed-size windows of
/// width `batch_size`, 1-based and inclusive on both ends; the trailing
/// remainder shorter than one window is not requested, as the data source
/// reports exhaustion on its own.
#[verifier::loop_isolation(false)]
pub fn windows(max_items: u64, batch_size: u64) -> (r: Vec<(u64, u64)>)
    requires
        batch_size > 0,
    ensures
        r@.len() == max_items as int / batch_size as int,
        forall|i: int|
            0 <= i < r@.len() ==> (#[trigger] r@[i]).0 == i * batch_size + 1 && r@[i].1 == (i + 1)
                * batch_size,
        forall|i: int| 0 <= i < r@.len() ==> (#[trigger] r@[i]).0 <= r@[i].1,
        forall|i: int| 0 <= i < r@.len() ==> (#[trigger] r@[i]).1 <= max_items,
        forall|i: int| 0 < i < r@.len() ==> (#[trigger] r@[i]).0 == r@[i - 1].1 + 1,
{
    let count = max_items / batch_size;
    proof {
        lemma_fundamental_div_mod(max_items as int, batch_size as int);
        lemma_mod_division_less_than_divisor(max_items as int, batch_size as int);
    }
    let mut r: Vec<(u64, u64)> = Vec::new();
    let mut i: u64 = 0;
    while i < count
        invariant
            i <= count,
            r@.len() == i as int,
            forall|j: int|
                0 <= j < r@.len() ==> (#[trigger] r@[j]).0 == j * batch_size + 1 && r@[j].1 == (j
                    + 1) * batch_size,
            forall|j: int| 0 <= j < r@.len() ==> (#[trigger] r@[j]).0 <= r@[j].1,
            forall|j: int| 0 <= j < r@.len() ==> (#[trigger] r@[j]).1 <= max_items,
        decreases count - i,
    {
        proof {
            lemma_mul_inequality(i as int + 1, count as int, batch_size as int);
            vstd::arithmetic::mul::lemma_mul_is_distributive_add_other_way(
                batch_size as int,
                i as int,
                1,
            );
            vstd::arithmetic::mul::lemma_mul_is_commutative(count as int, batch_size as int);
            assert(count as int * batch_size as int <= max_items as int);
            assert(i as int * batch_size as int + batch_size as int <= max_items as int);
        }
        let start = i * batch_size + 1;
        let end = (i + 1) * batch_size;
        r.push((start, end));
        i = i + 1;
    }
    r
}

/// Caption fetch outcomes never change the item-level part of a page's
/// totals: the item count and the item duration of the page are those of
/// its items, whatever succeeded or failed at the caption level.
pub proof fn lemma_caption_failure_containment(
    items: Seq<Item>,
    outcomes: Seq<Option<Vec<CaptionEntry>>>,
)
    ensures
        page_stats_spec(items, outcomes).video_count == items_stat(items).video_count,
        page_stats_spec(items, outcomes).total_duration == items_stat(items).total_duration,
{
    let mapped = outcomes.map_values(|o: Option<Vec<CaptionEntry>>| outcome_stat(o));
    assert forall|j: int| 0 <= j < mapped.len() implies (#[trigger] mapped[j]).video_count == 0
        && mapped[j].total_duration == 0 by {
        let o = outcomes[j];
        match o {
            Some(entries) => {
                let es = entries@.map_values(|e: CaptionEntry| crate::captions::entry_stat(e));
                crate::stats::lemma_fold_no_items(es);
            },
            None => {},
        }
    }
    crate::stats::lemma_fold_no_items(mapped);
}

/// One more caption fetch failing inside a page leaves the page's item
/// count and item duration exactly as they were.
pub proof fn lemma_one_failed_caption_keeps_items(
    items: Seq<Item>,
    outcomes: Seq<Option<Vec<CaptionEntry>>>,
    i: int,
)
    requires
        0 <= i < outcomes.len(),
    ensures
        page_stats_spec(items, outcomes.update(i, None)).video_count == page_stats_spec(
            items,
            outcomes,
        ).video_count,
        page_stats_spec(items, outcomes.update(i, None)).total_duration == page_stats_spec(
            items,
            outcomes,
        ).total_duration,
{
    lemma_caption_failure_containment(items, outcomes);
    lemma_caption_failure_containment(items, outcomes.update(i, None));
}

} // verus!
