//! The five-field partial-statistics accumulator and its combine operation.
//!
//! One `PartialBatchStats` value is produced per page window and, inside a
//! window, per caption track; all of them are folded into one channel total.
//! Every field is combined by saturating addition, so the combine operation
//! is total, associative and commutative, and the all-zero value is its
//! identity.  Arrival order of sibling windows therefore cannot change the
//! total.

use rayon::iter::{IntoParallelRefIterator, ParallelIterator};
use vstd::prelude::*;

verus! {

/// Saturating addition on `u64`, the combine operation of every field.
pub open spec fn sat_add(a: u64, b: u64) -> u64 {
    if a + b > u64::MAX {
        u64::MAX
    } else {
        (a + b) as u64
    }
}

/// A count that does not fit in `u64` saturates, like the sums do.
pub open spec fn sat_u64(n: nat) -> u64 {
    if n > u64::MAX {
        u64::MAX
    } else {
        n as u64
    }
}

/// Running totals for a set of items and their caption entries.
///
/// Durations are in milliseconds; `total_sentence_length` counts characters
/// of caption text.
#[derive(Clone, Copy, Debug, PartialEq, Eq, Structural)]
pub struct PartialBatchStats {
    pub video_count: u64,
    pub total_duration: u64,
    pub sentence_count: u64,
    pub total_sentence_length: u64,
    pub total_sentence_duration: u64,
}

impl PartialBatchStats {
    /// The all-zero value: the identity element of `combine`.
    pub open spec fn spec_zero() -> PartialBatchStats {
        PartialBatchStats {
            video_count: 0,
            total_duration: 0,
            sentence_count: 0,
            total_sentence_length: 0,
            total_sentence_duration: 0,
        }
    }

    /// Field-wise saturating sum of two accumulators.
    pub open spec fn spec_combine(self, other: PartialBatchStats) -> PartialBatchStats {
        PartialBatchStats {
            video_count: sat_add(self.video_count, other.video_count),
            total_duration: sat_add(self.total_duration, other.total_duration),
            sentence_count: sat_add(self.sentence_count, other.sentence_count),
            total_sentence_length: sat_add(
                self.total_sentence_length,
                other.total_sentence_length,
            ),
            total_sentence_duration: sat_add(
                self.total_sentence_duration,
                other.total_sentence_duration,
            ),
        }
    }

    pub fn zero() -> (r: PartialBatchStats)
        ensures
            r == PartialBatchStats::spec_zero(),
    {
        PartialBatchStats {
            video_count: 0,
            total_duration: 0,
            sentence_count: 0,
            total_sentence_length: 0,
            total_sentence_duration: 0,
        }
    }

    pub fn combine(self, other: PartialBatchStats) -> (r: PartialBatchStats)
        ensures
            r == self.spec_combine(other),
    {
        PartialBatchStats {
            video_count: self.video_count.saturating_add(other.video_count),
            total_duration: self.total_duration.saturating_add(other.total_duration),
            sentence_count: self.sentence_count.saturating_add(other.sentence_count),
            total_sentence_length: self.total_sentence_length.saturating_add(
                other.total_sentence_length,
            ),
            total_sentence_duration: self.total_sentence_duration.saturating_add(
                other.total_sentence_duration,
            ),
        }
    }
}

/// Left fold of a sequence of accumulators, starting from the identity.
pub open spec fn fold_stats(parts: Seq<PartialBatchStats>) -> PartialBatchStats
    decreases parts.len(),
{
    if parts.len() == 0 {
        PartialBatchStats::spec_zero()
    } else {
        fold_stats(parts.drop_last()).spec_combine(parts.last())
    }
}

/// Fan-in reduction of the partial results of sibling windows or caption
/// tracks.
///
/// Relies on rayon's `ParallelIterator::reduce`: with an associative
/// operation and its identity element, the parallel reduction of a slice
/// equals the sequential left fold.  `combine` is associative and the
/// all-zero value is its identity (`lemma_combine_associative`,
/// `lemma_combine_identity`).
#[verifier::external_body]
pub(crate) fn combine_all(parts: &Vec<PartialBatchStats>) -> (r: PartialBatchStats)
    ensures
        r == fold_stats(parts@),
{
    parts.par_iter().map(|s| *s).reduce(PartialBatchStats::zero, |a, b| a.combine(b))
}

/// The all-zero value is a two-sided identity of `combine`.
pub proof fn lemma_combine_identity(a: PartialBatchStats)
    ensures
        PartialBatchStats::spec_zero().spec_combine(a) == a,
        a.spec_combine(PartialBatchStats::spec_zero()) == a,
{
}

/// `combine` is commutative.
pub proof fn lemma_combine_commutative(a: PartialBatchStats, b: PartialBatchStats)
    ensures
        a.spec_combine(b) == b.spec_combine(a),
{
}

/// `combine` is associative.
pub proof fn lemma_combine_associative(
    a: PartialBatchStats,
    b: PartialBatchStats,
    c: PartialBatchStats,
)
    ensures
        a.spec_combine(b).spec_combine(c) == a.spec_combine(b.spec_combine(c)),
{
}

/// Partial results that carry no items fold to a total with no items: the
/// item count and the item duration of a fold come from the item-carrying
/// parts alone.
pub proof fn lemma_fold_no_items(parts: Seq<PartialBatchStats>)
    requires
        forall|j: int|
            0 <= j < parts.len() ==> (#[trigger] parts[j]).video_count == 0
                && parts[j].total_duration == 0,
    ensures
        fold_stats(parts).video_count == 0,
        fold_stats(parts).total_duration == 0,
    decreases parts.len(),
{
    if parts.len() > 0 {
        lemma_fold_no_items(parts.drop_last());
    }
}

/// Folding from the identity distributes over concatenation, so any split of
/// a fixed collection of partial results into consecutive windows folds to
/// the same total.
pub proof fn lemma_fold_append(a: Seq<PartialBatchStats>, b: Seq<PartialBatchStats>)
    ensures
        fold_stats(a + b) == fold_stats(a).spec_combine(fold_stats(b)),
    decreases b.len(),
{
    if b.len() == 0 {
        assert(a + b =~= a);
        lemma_combine_identity(fold_stats(a));
    } else {
        assert((a + b).drop_last() =~= a + b.drop_last());
        lemma_fold_append(a, b.drop_last());
        lemma_combine_associative(fold_stats(a), fold_stats(b.drop_last()), b.last());
    }
}

/// The element at position `i` can be split off the fold and combined last.
proof fn lemma_fold_remove(s: Seq<PartialBatchStats>, i: int)
    requires
        0 <= i < s.len(),
    ensures
        fold_stats(s) == fold_stats(s.remove(i)).spec_combine(s[i]),
    decreases s.len(),
{
    if i == s.len() - 1 {
        assert(s.remove(i) =~= s.drop_last());
    } else {
        let t = s.drop_last();
        lemma_fold_remove(t, i);
        let f = fold_stats(t.remove(i));
        lemma_combine_associative(f, t[i], s.last());
        lemma_combine_commutative(t[i], s.last());
        lemma_combine_associative(f, s.last(), t[i]);
        assert(s.remove(i).drop_last() =~= t.remove(i));
        assert(s.remove(i).last() == s.last());
    }
}

/// Two sequences holding the same partial results with the same
/// multiplicities fold to the same total: arrival order of sibling pages or
/// caption tracks cannot change the channel total.
pub proof fn lemma_fold_permutation(s: Seq<PartialBatchStats>, t: Seq<PartialBatchStats>)
    requires
        s.to_multiset() == t.to_multiset(),
    ensures
        fold_stats(s) == fold_stats(t),
    decreases s.len(),
{
    broadcast use vstd::seq_lib::group_to_multiset_ensures;
    broadcast use vstd::multiset::group_multiset_axioms;

    if s.len() == 0 {
        assert(t.to_multiset().len() == 0);
        assert(t.len() == 0);
    } else {
        let x = s.last();
        assert(s.contains(x));
        assert(t.to_multiset().count(x) > 0);
        assert(t.contains(x));
        let i = choose|i: int| 0 <= i < t.len() && t[i] == x;
        lemma_fold_remove(t, i);
        assert(s.drop_last().push(x) =~= s);
        assert(s.drop_last().to_multiset().insert(x) == s.to_multiset());
        assert(t.remove(i).to_multiset() == t.to_multiset().remove(x));
        assert(s.drop_last().to_multiset() =~= t.remove(i).to_multiset());
        lemma_fold_permutation(s.drop_last(), t.remove(i));
    }
}

} // verus!
