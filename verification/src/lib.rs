//! Aggregate statistics for remote channels with paginated item lists.
//!
//! The crate holds the verified core of a channel-metrics pipeline: the
//! five-field partial-statistics accumulator with its associative combine
//! operation, the page-window partitioning of a channel's item range, the
//! per-page and per-caption-track reductions, the conversion of totals into
//! averages, and the retry orchestration over a shrinking set of pending
//! channel identifiers.  Network sources, persistence, and the download
//! collaborator are unverified callers that hand plain values in and out.

use vstd::prelude::*;

pub mod aggregate;
pub mod backoff;
pub mod captions;
pub mod config;
pub mod metrics;
pub mod orchestrator;
pub mod pending;
pub mod stats;

verus! {

/// The mathematical value of a list of strings: the sequence of their
/// character sequences.  Contracts about lists of identifiers and locators
/// are stated over this view.
pub open spec fn views_of(strings: Seq<String>) -> Seq<Seq<char>> {
    strings.map_values(|s: String| s@)
}

} // verus!
