//! Files to download from content servers.
use vstd::prelude::*;

verus! {

/// The most downloads that run at once.
pub const MAX_CONCURRENT_DOWNLOADS: usize = 8;

/// A file to download: where from, where to, its name and size.
#[derive(Debug, Clone)]
pub struct DownloadTask {
    pub url: String,
    pub output_path: String,
    pub file_name: String,
    pub file_size: u64,
}

} // verus!
