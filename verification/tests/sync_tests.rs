use offline_sync::extract::process_html_content;
use offline_sync::filename::url_to_filename;
use offline_sync::index::OfflineIndex;
use offline_sync::query::{check_many, get_raw, is_available};
use offline_sync::sync::{SyncEngine, COMPLETE_MARKER};

/// Drives one batch as the host would: `pages` gives, per URL, the fetched
/// page or `None` for a failed fetch. Returns the updated index, the store
/// of written artifacts, and the emitted `completed` values.
fn run_batch(
    urls: Vec<String>,
    index: OfflineIndex,
    store: &mut OfflineIndex,
    pages: &[Option<&str>],
) -> (OfflineIndex, Vec<u32>) {
    assert_eq!(urls.len(), pages.len());
    let mut engine = SyncEngine::new(urls, index);
    let mut completed: Vec<u32> = Vec::new();
    let mut i: usize = 0;
    while !engine.is_done() {
        let progress = engine.next_progress();
        assert!(!progress.is_complete);
        completed.push(progress.completed);
        match pages[i] {
            Some(page) => {
                let (filename, document) = engine.prepare_artifact(page);
                store.insert(filename, document);
                engine.record_stored();
            }
            None => engine.record_failure(),
        }
        i += 1;
    }
    let final_progress = engine.final_progress();
    assert!(final_progress.is_complete);
    assert_eq!(final_progress.completed, final_progress.total);
    assert_eq!(final_progress.current_item, COMPLETE_MARKER);
    completed.push(final_progress.completed);
    (engine.into_index(), completed)
}

#[test]
fn partial_failure_keeps_the_rest() {
    let urls = vec![
        "https://site/a".to_string(),
        "https://site/b".to_string(),
        "https://site/c".to_string(),
    ];
    let mut store = OfflineIndex::empty();
    let pages = [Some("<main>A</main>"), None, Some("<main>C</main>")];
    let (index, _) = run_batch(urls.clone(), OfflineIndex::empty(), &mut store, &pages);

    assert!(index.lookup("https://site/a").is_some());
    assert!(index.lookup("https://site/b").is_none());
    assert!(index.lookup("https://site/c").is_some());
    assert_eq!(index.len(), 2);

    let availability = check_many(&index, &store, &urls);
    assert_eq!(availability, vec![true, false, true]);
}

#[test]
fn progress_is_monotonic_and_ends_complete() {
    let urls = vec![
        "https://p/1".to_string(),
        "https://p/2".to_string(),
        "https://p/3".to_string(),
        "https://p/4".to_string(),
    ];
    let mut store = OfflineIndex::empty();
    let pages = [Some("<main>1</main>"), None, None, Some("<main>4</main>")];
    let (_, completed) = run_batch(urls, OfflineIndex::empty(), &mut store, &pages);

    assert_eq!(completed.first(), Some(&0));
    for pair in completed.windows(2) {
        assert!(pair[0] <= pair[1]);
    }
    assert_eq!(completed.last(), Some(&4));
}

#[test]
fn round_trip_returns_extracted_document() {
    let url = "https://site/page".to_string();
    let page = "<html><body><main>payload</main></body></html>";
    let mut store = OfflineIndex::empty();
    let (index, _) = run_batch(
        vec![url.clone()],
        OfflineIndex::empty(),
        &mut store,
        &[Some(page)],
    );

    let expected = process_html_content(page, &url);
    assert_eq!(get_raw(&index, &store, &url).map(String::as_str), Some(expected.as_str()));
}

#[test]
fn resync_with_unchanged_content_is_idempotent() {
    let url = "https://site/page".to_string();
    let page = "<main>stable</main>";
    let mut store = OfflineIndex::empty();
    let (index1, _) = run_batch(
        vec![url.clone()],
        OfflineIndex::empty(),
        &mut store,
        &[Some(page)],
    );
    let first_artifact = get_raw(&index1, &store, &url).cloned();

    let (index2, _) = run_batch(vec![url.clone()], index1, &mut store, &[Some(page)]);
    let second_artifact = get_raw(&index2, &store, &url).cloned();

    assert_eq!(index2.len(), 1);
    assert_eq!(
        index2.lookup(&url).map(String::as_str),
        Some(url_to_filename(&url).as_str())
    );
    assert_eq!(first_artifact, second_artifact);
    assert!(first_artifact.is_some());
}

#[test]
fn missing_file_reads_as_unavailable() {
    let mut index = OfflineIndex::empty();
    index.insert("https://gone".to_string(), "gone.html".to_string());
    // The store snapshot holds no such file: deleted out-of-band.
    let store = OfflineIndex::empty();
    assert!(!is_available(&index, &store, "https://gone"));
    assert!(get_raw(&index, &store, "https://gone").is_none());
}

#[test]
fn merge_preserves_existing_entries() {
    let mut index = OfflineIndex::empty();
    index.insert("https://old".to_string(), "old.html".to_string());
    let mut store = OfflineIndex::empty();
    store.insert("old.html".to_string(), "old doc".to_string());

    let (merged, _) = run_batch(
        vec!["https://new".to_string()],
        index,
        &mut store,
        &[Some("<main>new</main>")],
    );
    assert_eq!(merged.len(), 2);
    assert!(is_available(&merged, &store, "https://old"));
    assert!(is_available(&merged, &store, "https://new"));
}
