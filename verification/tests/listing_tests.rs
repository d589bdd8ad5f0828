use dagger_explorer::entries::FileEntry;
use dagger_explorer::listing::{FileChange, FsCache, ListingEvent};

fn entry(dir: &str, name: &str, is_dir: bool, size: u64) -> FileEntry {
    FileEntry { name: name.to_string(), path: format!("{dir}/{name}"), is_dir, size, modified_ns: 0, is_hidden: false }
}

fn names(cache: &FsCache, dir: &str) -> Vec<String> {
    cache.listing(dir).expect("listing").entries.iter().map(|e| e.name.clone()).collect()
}

#[test]
fn request_starts_a_worker_once() {
    let mut c = FsCache::new();
    assert!(!c.is_listing_loading("/d"));
    assert!(c.request_listing("/d".to_string()));
    assert!(c.is_listing_loading("/d"));
    assert!(!c.request_listing("/d/".to_string()));
    assert_eq!(c.pending.len(), 1);
    let l = c.listing("/d").expect("listing");
    assert!(!l.complete);
    assert!(l.entries.is_empty());
}

#[test]
fn reported_entries_complete_sorted() {
    let mut c = FsCache::new();
    c.request_listing("/d".to_string());
    let events = vec![
        ListingEvent::Entry(entry("/d", "b.txt", false, 1)),
        ListingEvent::Entry(entry("/d", "Sub", true, 0)),
        ListingEvent::Entry(entry("/d", "a.txt", false, 1)),
    ];
    assert!(c.apply_listing_events("/d", &events));
    assert!(c.is_listing_loading("/d"));
    assert_eq!(names(&c, "/d"), vec!["b.txt", "Sub", "a.txt"]);
    assert!(c.apply_listing_events("/d", &vec![ListingEvent::Complete, ListingEvent::Entry(entry("/d", "late", false, 1))]));
    assert!(!c.is_listing_loading("/d"));
    assert!(c.listing("/d").expect("listing").complete);
    assert_eq!(names(&c, "/d"), vec!["Sub", "a.txt", "b.txt"]);
    assert!(c.pending.is_empty());
    assert!(!c.request_listing("/d".to_string()));
    assert!(!c.apply_listing_events("/d", &Vec::new()));
}

#[test]
fn a_worker_that_goes_away_completes_the_listing() {
    let mut c = FsCache::new();
    c.request_listing("/d".to_string());
    c.apply_listing_events("/d", &vec![ListingEvent::Entry(entry("/d", "z", false, 1)), ListingEvent::Disconnected]);
    assert!(!c.is_listing_loading("/d"));
    assert_eq!(names(&c, "/d"), vec!["z"]);
}

#[test]
fn poll_applies_each_batch() {
    let mut c = FsCache::new();
    c.request_listing("/a".to_string());
    c.request_listing("/b".to_string());
    let batches = vec![
        ("/a".to_string(), vec![ListingEvent::Entry(entry("/a", "x", false, 1)), ListingEvent::Complete]),
        ("/b".to_string(), Vec::new()),
    ];
    assert!(c.poll(&batches));
    assert!(!c.is_listing_loading("/a"));
    assert!(c.is_listing_loading("/b"));
    assert!(!c.poll(&vec![("/b".to_string(), Vec::new())]));
}

#[test]
fn invalidate_forgets_a_directory() {
    let mut c = FsCache::new();
    c.request_listing("/a".to_string());
    c.request_listing("/b".to_string());
    c.invalidate("/a");
    assert!(c.listing("/a").is_none());
    assert!(!c.is_listing_loading("/a"));
    assert!(c.is_listing_loading("/b"));
    assert!(c.request_listing("/a".to_string()));
}

#[test]
fn file_watcher_changes() {
    let mut c = FsCache::new();
    c.request_listing("/d".to_string());
    c.apply_listing_events("/d", &vec![ListingEvent::Entry(entry("/d", "a", false, 1)), ListingEvent::Complete]);
    let changes = vec![
        FileChange::Present("/d/c".to_string(), Some(entry("/d", "c", false, 3))),
        FileChange::Present("/d/a".to_string(), Some(entry("/d", "a", false, 9))),
        FileChange::Present("/elsewhere/q".to_string(), Some(entry("/elsewhere", "q", false, 1))),
        FileChange::Present("/d/unreadable".to_string(), None),
    ];
    assert!(c.apply_file_changes("/d", &changes));
    assert_eq!(names(&c, "/d"), vec!["a", "c"]);
    assert_eq!(c.listing("/d").expect("listing").entries[0].size, 9);
    assert!(c.apply_file_changes("/d", &vec![FileChange::Gone("/d/a".to_string())]));
    assert_eq!(names(&c, "/d"), vec!["c"]);
    assert!(!c.apply_file_changes("/d", &vec![FileChange::Gone("/d/missing".to_string())]));
    assert!(!c.apply_file_changes("/other", &vec![FileChange::Gone("/other/c".to_string())]));
}

#[test]
fn incomplete_listings_ignore_watcher_changes() {
    let mut c = FsCache::new();
    c.request_listing("/d".to_string());
    assert!(!c.apply_file_changes("/d", &vec![FileChange::Present("/d/a".to_string(), Some(entry("/d", "a", false, 1)))]));
    assert!(names(&c, "/d").is_empty());
}

#[test]
fn loading_exactly_while_incomplete() {
    let mut c = FsCache::new();
    assert!(!c.is_listing_loading("/d"));
    c.request_listing("/d".to_string());
    assert!(c.is_listing_loading("/d"));
    assert!(!c.listing("/d").expect("listing").complete);
    c.apply_listing_events("/d", &vec![ListingEvent::Entry(entry("/d", "x", false, 1))]);
    assert!(c.is_listing_loading("/d"));
    c.apply_listing_events("/d", &vec![ListingEvent::Complete]);
    assert!(!c.is_listing_loading("/d"));
    assert!(c.listing("/d").expect("listing").complete);
    c.request_listing("/e".to_string());
    c.invalidate("/e");
    assert!(!c.is_listing_loading("/e"));
    assert!(c.listing("/e").is_none());
}
