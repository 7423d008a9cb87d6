//! The sync engine: the decision core of a batch run.
//!
//! A batch processes the given URLs strictly in order. The host performs the
//! outside work (the HTTP fetch, the artifact write, the snapshot delivery,
//! the final index save) and reports each outcome back; the engine decides
//! everything else: which snapshot to emit before an item, what artifact to
//! write for a fetched page, and how the index changes. A failed fetch or a
//! failed write skips the item and never touches the index; the batch always
//! runs to the end of the list.

use crate::extract::process_html_content;
use crate::extract::spec_extract;
use crate::filename::spec_filename;
use crate::filename::url_to_filename;
use crate::index::OfflineIndex;
use vstd::prelude::*;

verus! {

/// The `current_item` of the final snapshot of a run.
pub const COMPLETE_MARKER: &'static str = "Complete";

/// A transient snapshot of a running batch, delivered to the host's progress
/// sink; never persisted.
pub struct SyncProgress {
    /// Number of URLs in the batch.
    pub total: u32,
    /// Number of URLs already fully processed, successfully or not.
    pub completed: u32,
    /// The URL about to be attempted, or the completion marker.
    pub current_item: String,
    /// Whether the batch has finished, index saved included.
    pub is_complete: bool,
}

impl SyncProgress {
    /// The data-model invariant of a snapshot: `completed` stays within
    /// `[0, total]`.
    pub open spec fn wf(&self) -> bool {
        self.completed <= self.total
    }
}

/// The state of one batch run: the URLs, how many of them have been
/// processed, and the index as updated so far.
pub struct SyncEngine {
    urls: Vec<String>,
    pos: usize,
    index: OfflineIndex,
}

impl SyncEngine {
    /// The batch's URLs, in the caller's order.
    pub closed spec fn spec_urls(&self) -> Seq<Seq<char>> {
        self.urls@.map_values(|u: String| u@)
    }

    /// How many URLs have been fully processed.
    pub closed spec fn spec_pos(&self) -> int {
        self.pos as int
    }

    /// The index as updated so far.
    pub closed spec fn spec_index(&self) -> Map<Seq<char>, Seq<char>> {
        self.index@
    }

    /// Well-formedness: the position stays within the batch, the batch size
    /// fits the progress counters, and the index is well formed.
    pub closed spec fn wf(&self) -> bool {
        &&& self.pos <= self.urls.len()
        &&& self.urls.len() <= u32::MAX
        &&& self.index.wf()
    }

    /// Starts a batch over the given URLs, merging into an existing index:
    /// entries already present are preserved unless a later success of the
    /// same URL overwrites them.
    pub fn new(urls: Vec<String>, index: OfflineIndex) -> (r: Self)
        requires
            index.wf(),
            urls@.len() <= u32::MAX,
        ensures
            r.wf(),
            r.spec_urls() == urls@.map_values(|u: String| u@),
            r.spec_pos() == 0,
            r.spec_index() == index@,
    {
        SyncEngine { urls, pos: 0, index }
    }

    /// Number of URLs in the batch.
    pub fn total(&self) -> (n: u32)
        requires
            self.wf(),
        ensures
            n == self.spec_urls().len(),
    {
        self.urls.len() as u32
    }

    /// Whether every URL has been attempted.
    pub fn is_done(&self) -> (r: bool)
        requires
            self.wf(),
        ensures
            r == (self.spec_pos() == self.spec_urls().len()),
    {
        self.pos == self.urls.len()
    }

    /// The URL about to be attempted.
    pub fn current_url(&self) -> (r: &String)
        requires
            self.wf(),
            self.spec_pos() < self.spec_urls().len(),
        ensures
            r@ == self.spec_urls()[self.spec_pos()],
    {
        &self.urls[self.pos]
    }

    /// The snapshot to emit before attempting the current URL: `completed`
    /// counts the URLs already processed, successfully or not.
    pub fn next_progress(&self) -> (p: SyncProgress)
        requires
            self.wf(),
            self.spec_pos() < self.spec_urls().len(),
        ensures
            p.wf(),
            p.total == self.spec_urls().len(),
            p.completed == self.spec_pos(),
            p.current_item@ == self.spec_urls()[self.spec_pos()],
            !p.is_complete,
    {
        SyncProgress {
            total: self.urls.len() as u32,
            completed: self.pos as u32,
            current_item: self.urls[self.pos].clone(),
            is_complete: false,
        }
    }

    /// The artifact for the current URL, given the fetched page: the derived
    /// filename and the extracted offline document to write under it.
    pub fn prepare_artifact(&self, content: &str) -> (r: (String, String))
        requires
            self.wf(),
            self.spec_pos() < self.spec_urls().len(),
        ensures
            r.0@ == spec_filename(self.spec_urls()[self.spec_pos()]),
            r.1@ == spec_extract(content@, self.spec_urls()[self.spec_pos()]),
    {
        let url = &self.urls[self.pos];
        (url_to_filename(url.as_str()), process_html_content(content, url.as_str()))
    }

    /// Records that the current URL failed (network failure, non-success
    /// status, undecodable body, or artifact write failure): the index is
    /// left untouched and the batch moves on.
    pub fn record_failure(&mut self)
        requires
            old(self).wf(),
            old(self).spec_pos() < old(self).spec_urls().len(),
        ensures
            final(self).wf(),
            final(self).spec_urls() == old(self).spec_urls(),
            final(self).spec_pos() == old(self).spec_pos() + 1,
            final(self).spec_index() == old(self).spec_index(),
    {
        self.pos += 1;
    }

    /// Records that the current URL's artifact was written: the index gains
    /// (or overwrites) the entry from the URL to its derived filename, and
    /// the batch moves on.
    pub fn record_stored(&mut self)
        requires
            old(self).wf(),
            old(self).spec_pos() < old(self).spec_urls().len(),
        ensures
            final(self).wf(),
            final(self).spec_urls() == old(self).spec_urls(),
            final(self).spec_pos() == old(self).spec_pos() + 1,
            final(self).spec_index() == old(self).spec_index().insert(
                old(self).spec_urls()[old(self).spec_pos()],
                spec_filename(old(self).spec_urls()[old(self).spec_pos()]),
            ),
    {
        let url = self.urls[self.pos].clone();
        let filename = url_to_filename(url.as_str());
        self.index.insert(url, filename);
        self.pos += 1;
    }

    /// The final snapshot, to emit only after every URL was attempted and
    /// the index was persisted.
    pub fn final_progress(&self) -> (p: SyncProgress)
        requires
            self.wf(),
            self.spec_pos() == self.spec_urls().len(),
        ensures
            p.wf(),
            p.total == self.spec_urls().len(),
            p.completed == self.spec_urls().len(),
            p.current_item@ == COMPLETE_MARKER@,
            p.is_complete,
    {
        SyncProgress {
            total: self.urls.len() as u32,
            completed: self.urls.len() as u32,
            current_item: String::from_str(COMPLETE_MARKER),
            is_complete: true,
        }
    }

    /// Hands the updated index back, for the host to persist once at the end
    /// of the batch.
    pub fn into_index(self) -> (r: OfflineIndex)
        requires
            self.wf(),
        ensures
            r.wf(),
            r@ == self.spec_index(),
    {
        let SyncEngine { urls: _, pos: _, index } = self;
        index
    }
}

/// One step of a run: one URL's outcome was recorded, a success or a
/// failure, over the same batch.
pub open spec fn engine_step(pre: SyncEngine, post: SyncEngine) -> bool {
    &&& post.spec_urls() == pre.spec_urls()
    &&& post.spec_pos() == pre.spec_pos() + 1
}

/// The `completed` values of the snapshots a full batch over `n` URLs emits,
/// in order: one snapshot before each URL, counting the URLs already
/// processed, then the final snapshot.
pub open spec fn emitted_completed(n: int) -> Seq<int> {
    Seq::new((n + 1) as nat, |i: int| if i < n { i } else { n })
}

/// Progress monotonicity: over a batch of `n` URLs the emitted `completed`
/// values never decrease, start at 0, stay within `[0, n]`, and the final
/// emission equals `n`.
pub proof fn lemma_progress_monotonic(n: int)
    requires
        n >= 0,
    ensures
        forall|i: int, j: int|
            0 <= i <= j < emitted_completed(n).len() ==> emitted_completed(n)[i]
                <= emitted_completed(n)[j],
        emitted_completed(n)[0] == 0,
        forall|i: int|
            0 <= i < emitted_completed(n).len() ==> 0 <= #[trigger] emitted_completed(n)[i] <= n,
        emitted_completed(n).last() == n,
{
}

/// A recorded step never moves the snapshot counter backwards, and never
/// past the total: the snapshot before an item always shows the number of
/// items already processed.
pub proof fn lemma_step_progress(pre: SyncEngine, post: SyncEngine)
    requires
        pre.wf(),
        post.wf(),
        engine_step(pre, post),
    ensures
        pre.spec_pos() < post.spec_pos(),
        post.spec_pos() <= post.spec_urls().len(),
{
}

/// Idempotence: syncing the same URL twice with unchanged remote content
/// writes the same artifact both times (the extractor and the filename
/// deriver are pure functions of the page and the URL), and the second
/// success leaves the index exactly as the first one did.
pub proof fn lemma_sync_idempotent(
    index: Map<Seq<char>, Seq<char>>,
    url: Seq<char>,
    content: Seq<char>,
)
    ensures
        spec_extract(content, url) == spec_extract(content, url),
        index.insert(url, spec_filename(url)).insert(url, spec_filename(url)) == index.insert(
            url,
            spec_filename(url),
        ),
{
    assert(index.insert(url, spec_filename(url)).insert(url, spec_filename(url)) =~= index.insert(
        url,
        spec_filename(url),
    ));
}

} // verus!
