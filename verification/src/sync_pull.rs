//! Draining the change feed: pages are fetched from the durable cursor and
//! applied one transaction each, at most `MAX_PAGES_PER_CYCLE` per cycle.
use vstd::prelude::*;
use crate::local_store::pull_apply::PageApplied;
use crate::local_store::LocalStoreError;
use crate::sync_client::SyncClientError;

verus! {

/// Client pull page size: the server clamps to its own maximum of 200.
pub const PULL_PAGE_LIMIT: u32 = 100;

/// Pages applied per cycle at most; the next cycle resumes from the cursor.
pub const MAX_PAGES_PER_CYCLE: usize = 100;

#[derive(Debug)]
pub enum PullError {
    Http(SyncClientError),
    LocalStore(LocalStoreError),
    BlobStore(String),
    BlobDownload { hash: String, source: SyncClientError },
    BlobDigestMismatch { expected: String, actual: String },
}

/// Result of one pull drain (possibly many pages).
#[derive(Debug, Clone, PartialEq, Eq)]
pub struct PullSummary {
    pub pages_applied: usize,
    pub upserts: usize,
    pub tombstones: usize,
    pub conflicts_detected: u64,
    pub blobs_downloaded: usize,
    pub has_more: bool,
}

impl PullSummary {
    pub fn new() -> (s: PullSummary)
        ensures
            s.pages_applied == 0,
            s.upserts == 0,
            s.tombstones == 0,
            s.conflicts_detected == 0,
            s.blobs_downloaded == 0,
            !s.has_more,
    {
        PullSummary {
            pages_applied: 0,
            upserts: 0,
            tombstones: 0,
            conflicts_detected: 0,
            blobs_downloaded: 0,
            has_more: false,
        }
    }

    /// Counts one applied page and the blobs downloaded for it, and decides
    /// whether to fetch another page: the drain stops once the server has
    /// no more, or once the per-cycle page bound is reached (reporting
    /// whether more was waiting).
    pub fn record_page(&mut self, applied: &PageApplied, downloaded: usize, page_has_more: bool) -> (fetch_next: bool)
        requires
            old(self).pages_applied < MAX_PAGES_PER_CYCLE,
            old(self).upserts + applied.upserts <= usize::MAX,
            old(self).tombstones + applied.tombstones <= usize::MAX,
            old(self).conflicts_detected + applied.conflicts_detected <= u64::MAX,
            old(self).blobs_downloaded + downloaded <= usize::MAX,
        ensures
            final(self).pages_applied == old(self).pages_applied + 1,
            final(self).upserts == old(self).upserts + applied.upserts,
            final(self).tombstones == old(self).tombstones + applied.tombstones,
            final(self).conflicts_detected == old(self).conflicts_detected
                + applied.conflicts_detected,
            final(self).blobs_downloaded == old(self).blobs_downloaded + downloaded,
            fetch_next == (page_has_more && final(self).pages_applied < MAX_PAGES_PER_CYCLE),
            !fetch_next ==> final(self).has_more == page_has_more,
            fetch_next ==> final(self).has_more == old(self).has_more,
            final(self).pages_applied <= MAX_PAGES_PER_CYCLE,
    {
        self.blobs_downloaded = self.blobs_downloaded + downloaded;
        self.pages_applied = self.pages_applied + 1;
        self.upserts = self.upserts + applied.upserts;
        self.tombstones = self.tombstones + applied.tombstones;
        self.conflicts_detected = self.conflicts_detected + applied.conflicts_detected;
        if !page_has_more || self.pages_applied >= MAX_PAGES_PER_CYCLE {
            self.has_more = page_has_more;
            return false;
        }
        true
    }
}

} // verus!
