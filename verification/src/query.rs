//! Read-only availability queries over the index and the artifact store.
//!
//! The store argument is a snapshot of the artifact directory, as a mapping
//! from filename to document content; the host takes it from disk. A URL is
//! available offline exactly when the index has an entry for it and the
//! store holds the entry's file — an absent entry or a file removed
//! out-of-band means "not available", never an error.

use crate::extract::spec_extract;
use crate::filename::spec_filename;
use crate::index::OfflineIndex;
use vstd::prelude::*;

verus! {

/// What a raw-content query returns over an index and a store snapshot: the
/// stored document when the URL is indexed and its file is present, nothing
/// otherwise.
pub open spec fn spec_lookup(
    index: Map<Seq<char>, Seq<char>>,
    store: Map<Seq<char>, Seq<char>>,
    url: Seq<char>,
) -> Option<Seq<char>> {
    if index.contains_key(url) && store.contains_key(index[url]) {
        Some(store[index[url]])
    } else {
        None
    }
}

/// Whether a URL is available offline over an index and a store snapshot.
pub open spec fn spec_available(
    index: Map<Seq<char>, Seq<char>>,
    store: Map<Seq<char>, Seq<char>>,
    url: Seq<char>,
) -> bool {
    spec_lookup(index, store, url) is Some
}

/// The stored offline document for a URL, or nothing when the URL is not
/// indexed or its file is gone; no side effect.
pub fn get_raw<'a>(index: &OfflineIndex, store: &'a OfflineIndex, url: &str) -> (r: Option<
    &'a String,
>)
    requires
        index.wf(),
        store.wf(),
    ensures
        match r {
            Some(c) => spec_lookup(index@, store@, url@) == Some(c@),
            None => spec_lookup(index@, store@, url@) is None,
        },
{
    match index.lookup(url) {
        Some(filename) => store.lookup(filename.as_str()),
        None => None,
    }
}

/// True exactly when the URL is indexed and its artifact file is present.
pub fn is_available(index: &OfflineIndex, store: &OfflineIndex, url: &str) -> (r: bool)
    requires
        index.wf(),
        store.wf(),
    ensures
        r == spec_available(index@, store@, url@),
{
    match get_raw(index, store, url) {
        Some(_) => true,
        None => false,
    }
}

/// Availability for each URL, in the order given, over one shared index and
/// store snapshot.
pub fn check_many(index: &OfflineIndex, store: &OfflineIndex, urls: &Vec<String>) -> (r: Vec<bool>)
    requires
        index.wf(),
        store.wf(),
    ensures
        r@.len() == urls@.len(),
        forall|i: int|
            0 <= i < urls@.len() ==> r@[i] == spec_available(index@, store@, urls@[i]@),
{
    let n: usize = urls.len();
    let mut r: Vec<bool> = Vec::new();
    let mut i: usize = 0;
    while i < n
        invariant
            index.wf(),
            store.wf(),
            n == urls@.len(),
            0 <= i <= n,
            r@.len() == i,
            forall|j: int| 0 <= j < i ==> r@[j] == spec_available(index@, store@, urls@[j]@),
        decreases n - i,
    {
        let a = is_available(index, store, urls[i].as_str());
        r.push(a);
        i += 1;
    }
    r
}

/// Round trip: after a successful sync of a URL with fetched page `content`
/// — the index maps the URL to its derived filename and the store holds the
/// extracted document under that filename — a raw-content query for the URL
/// returns exactly the document the extractor produced for that fetch.
pub proof fn lemma_round_trip(
    index: Map<Seq<char>, Seq<char>>,
    store: Map<Seq<char>, Seq<char>>,
    url: Seq<char>,
    content: Seq<char>,
)
    ensures
        spec_lookup(
            index.insert(url, spec_filename(url)),
            store.insert(spec_filename(url), spec_extract(content, url)),
            url,
        ) == Some(spec_extract(content, url)),
{
}

/// Missing-file consistency: an index entry whose backing file is absent
/// from the store leaves the URL unavailable — reported as `false`, never as
/// an error.
pub proof fn lemma_missing_file(
    index: Map<Seq<char>, Seq<char>>,
    store: Map<Seq<char>, Seq<char>>,
    url: Seq<char>,
)
    requires
        index.contains_key(url),
        !store.contains_key(index[url]),
    ensures
        !spec_available(index, store, url),
{
}

} // verus!
