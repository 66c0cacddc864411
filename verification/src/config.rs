//! Run configuration.
//!
//! The recognized options of a run, with their defaults: how often a
//! stalled working set is retried, how many channels one round attempts,
//! how wide a page window is, the per-channel item ceiling, and whether
//! the download collaborator runs after metrics are computed.

use vstd::prelude::*;

verus! {

/// The options of one run.
pub struct RunConfig {
    /// Where output and downloads go.
    pub output_dir: String,
    /// How many consecutive rounds without progress stop the run.
    pub max_retry: u64,
    /// How many channels one round attempts.
    pub max_concurrent: usize,
    /// The width of one page window.
    pub batch_size: u64,
    /// The per-channel item ceiling: items beyond it are never requested.
    pub max_items: u64,
    /// Whether the download collaborator runs for each finished channel.
    pub download: bool,
}

impl RunConfig {
    /// A configuration the batch aggregator can run with.
    pub open spec fn valid(&self) -> bool {
        self.batch_size > 0
    }

    /// The defaults for everything but the output directory.
    pub fn new(output_dir: String) -> (r: RunConfig)
        ensures
            r.output_dir == output_dir,
            r.max_retry == 3,
            r.max_concurrent == 10,
            r.batch_size == 100,
            r.max_items == 5000,
            !r.download,
            r.valid(),
    {
        RunConfig {
            output_dir,
            max_retry: 3,
            max_concurrent: 10,
            batch_size: 100,
            max_items: 5000,
            download: false,
        }
    }
}

} // verus!
