//! The indexing pipeline's decisions: worker sizing, progress logging, and
//! the single writer's batch bookkeeping. The writer commits exactly once,
//! at stream end; any failure before that rolls the whole batch back, so a
//! run without a successful commit leaves nothing visible.

use vstd::prelude::*;

verus! {

/// One scraped chapter, queued for indexing. Produced once per chapter,
/// consumed exactly once; chapter ids within a story are dense, 0-based,
/// in discovery order.
#[derive(Clone, Debug, PartialEq, Eq)]
pub struct ChapterLine {
    pub story_id: usize,
    pub chapter_id: usize,
    pub chapter_content: String,
}

/// A ranked query against the committed index.
#[derive(Clone, Debug, PartialEq, Eq)]
pub struct SearchQuery {
    pub query: String,
    pub offset: usize,
    pub limit: usize,
}

/// Capacity of the chapter-record queue: the throttle that back-pressures
/// the crawl when indexing lags.
pub const CHAPTER_QUEUE_CAPACITY: usize = 10000;

/// Capacity of the converted-document queue.
pub const DOCUMENT_QUEUE_CAPACITY: usize = 10000;

/// The writer logs progress every this many documents.
pub const PROGRESS_GROUP: u64 = 100000;

/// Writer threads of the index store.
pub const WRITER_THREADS: usize = 3;

/// Total writer memory, split evenly over the writer threads.
pub const WRITER_MEMORY: usize = 1000000000;

/// Parsing workers: a quarter of the writer threads, at least one.
pub fn parse_worker_count(num_threads: usize) -> (r: usize)
    ensures
        r == (if num_threads / 4 >= 1 {
            num_threads / 4
        } else {
            1
        }),
        r >= 1,
{
    let q = num_threads / 4;
    if q >= 1 {
        q
    } else {
        1
    }
}

/// The memory budget each writer thread gets.
pub fn per_thread_buffer(total: usize, threads: usize) -> (r: usize)
    requires
        threads >= 1,
    ensures
        r == total / threads,
{
    total / threads
}

/// The run fails when either the crawl or the indexing side fails.
pub fn run_outcome(crawl_ok: bool, index_ok: bool) -> (r: bool)
    ensures
        r == (crawl_ok && index_ok),
{
    crawl_ok && index_ok
}

/// The single writer's bookkeeping over one run.
#[derive(Debug, Clone, PartialEq, Eq)]
pub struct IndexRun {
    /// Documents added to the uncommitted batch.
    pub added: u64,
    /// Records dropped on conversion failure; never fatal.
    pub dropped: u64,
    /// The count made durable by the one successful commit, if it happened.
    pub committed: Option<u64>,
    /// A write or commit error happened; the batch is rolled back.
    pub failed: bool,
}

impl IndexRun {
    /// How many documents are visible: none before the single commit.
    pub open spec fn visible(self) -> int {
        match self.committed {
            Some(n) => n as int,
            None => 0,
        }
    }

    pub fn new() -> (r: IndexRun)
        ensures
            r.added == 0,
            r.dropped == 0,
            r.committed is None,
            r.failed == false,
            r.visible() == 0,
    {
        IndexRun { added: 0, dropped: 0, committed: None, failed: false }
    }

    /// One document handed to the writer. Returns whether to log progress:
    /// exactly when the count before this document is a positive multiple
    /// of the progress group.
    pub fn record_added(&mut self) -> (log: bool)
        requires
            old(self).added < u64::MAX,
            !old(self).failed,
            old(self).committed is None,
        ensures
            final(self).added == old(self).added + 1,
            final(self).dropped == old(self).dropped,
            final(self).committed == old(self).committed,
            final(self).failed == old(self).failed,
            final(self).visible() == old(self).visible(),
            log == (old(self).added > 0 && old(self).added % 100000u64 == 0),
    {
        let log = self.added > 0 && self.added % PROGRESS_GROUP == 0;
        self.added = self.added + 1;
        log
    }

    /// One record failed to convert: logged and dropped, never fatal, and
    /// nothing becomes visible.
    pub fn record_conversion_failure(&mut self)
        requires
            old(self).dropped < u64::MAX,
        ensures
            final(self).added == old(self).added,
            final(self).dropped == old(self).dropped + 1,
            final(self).committed == old(self).committed,
            final(self).failed == old(self).failed,
            final(self).visible() == old(self).visible(),
    {
        self.dropped = self.dropped + 1;
    }

    /// The writer failed to apply a document: the run is fatal and nothing
    /// of the batch ever becomes visible.
    pub fn record_write_error(&mut self)
        ensures
            final(self).added == old(self).added,
            final(self).dropped == old(self).dropped,
            final(self).committed == old(self).committed,
            final(self).failed,
            final(self).visible() == old(self).visible(),
    {
        self.failed = true;
    }

    /// The one commit at stream end. On success the whole batch becomes
    /// visible; on failure the batch is rolled back whole and nothing is.
    pub fn record_commit(&mut self, ok: bool)
        requires
            !old(self).failed,
            old(self).committed is None,
        ensures
            final(self).added == old(self).added,
            final(self).dropped == old(self).dropped,
            ok ==> final(self).committed == Some(old(self).added) && !final(self).failed
                && final(self).visible() == old(self).added,
            !ok ==> final(self).committed is None && final(self).failed && final(self).visible()
                == 0,
    {
        if ok {
            self.committed = Some(self.added);
        } else {
            self.failed = true;
        }
    }

    pub fn visible_docs(&self) -> (r: u64)
        ensures
            r as int == self.visible(),
    {
        match self.committed {
            Some(n) => n,
            None => 0,
        }
    }

    pub fn is_failed(&self) -> (r: bool)
        ensures
            r == self.failed,
    {
        self.failed
    }
}

/// Law: however many documents were added or dropped, a run whose single
/// commit never succeeded has zero visible documents.
pub proof fn lemma_no_commit_nothing_visible(run: IndexRun)
    requires
        run.committed is None,
    ensures
        run.visible() == 0,
{
}

} // verus!
