//! Settings of a synchronisation process.

use vstd::prelude::*;

verus! {

/// Where the remote source and the store are, and how many catchup workers
/// run at once.
#[derive(Debug, Clone)]
pub struct Config {
    /// Base URL of the remote item source.
    pub hn_api_url: String,
    /// Connection string of the store.
    pub db_url: String,
    /// Number of concurrent catchup workers.
    pub num_workers: usize,
}

} // verus!
