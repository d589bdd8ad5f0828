use dagger_explorer::entries::FileEntry;
use dagger_explorer::media::{is_thumbnail_candidate, media_kind, MediaKind};
use dagger_explorer::thumbs::{mtime_ns, ThumbnailScheduler, MAX_CONCURRENT, THUMB_MAX_PX};

fn file(name: &str, modified_ns: u128) -> FileEntry {
    FileEntry {
        name: name.to_string(),
        path: format!("/pics/{name}"),
        is_dir: false,
        size: 10,
        modified_ns,
        is_hidden: false,
    }
}

#[test]
fn media_kinds_by_extension() {
    assert_eq!(media_kind("/a/b.PNG"), Some(MediaKind::Image));
    assert_eq!(media_kind("/a/b.jpeg"), Some(MediaKind::Image));
    assert_eq!(media_kind("/a/clip.MkV"), Some(MediaKind::Video));
    assert_eq!(media_kind("/a/notes.txt"), None);
    assert_eq!(media_kind("/a/noext"), None);
    assert!(is_thumbnail_candidate("/a/b.gif", false));
    assert!(!is_thumbnail_candidate("/a/b.gif", true));
    assert!(!is_thumbnail_candidate("/a/b.rs", false));
}

#[test]
fn constants_and_mtime() {
    assert_eq!(MAX_CONCURRENT, 4);
    assert_eq!(THUMB_MAX_PX, 128);
    assert_eq!(mtime_ns(Some(42)), 42);
    assert_eq!(mtime_ns(None), 0);
}

#[test]
fn load_dispatches_at_most_four() {
    let mut s = ThumbnailScheduler::new();
    assert_eq!(s.total_jobs(), 0);
    assert!(s.directory().is_none());
    let entries: Vec<FileEntry> = vec![
        file("a.png", 1),
        file("b.mp4", 2),
        file("c.txt", 3),
        file("d.jpg", 4),
        file("e.webp", 5),
        file("f.gif", 6),
        FileEntry {
            name: "sub.png".to_string(),
            path: "/pics/sub.png".to_string(),
            is_dir: true,
            size: 0,
            modified_ns: 0,
            is_hidden: false,
        },
    ];
    let jobs = s.begin_directory_load("/pics".to_string(), &entries);
    assert_eq!(s.directory().map(|d| d.as_str()), Some("/pics"));
    assert_eq!(s.total_jobs(), 5);
    assert_eq!(jobs.len(), 4);
    assert_eq!(jobs[0].path, "/pics/a.png");
    assert_eq!(jobs[0].kind, MediaKind::Image);
    assert_eq!(jobs[1].kind, MediaKind::Video);
    assert_eq!(jobs[1].modified_ns, 2);
    assert_eq!(s.running_jobs(), 4);
    assert_eq!(s.queued_jobs(), 1);
    assert!(s.is_loading("/pics"));
    assert!(s.is_loading("/pics/"));
    assert!(!s.is_loading("/other"));

    let generation = jobs[0].generation;
    assert!(s.job_done("/pics/a.png", generation, true));
    assert!(s.has_thumbnail("/pics/a.png"));
    assert_eq!(s.finished_jobs(), 1);
    assert!(!s.job_done("/pics/a.png", generation, true));
    assert!(!s.job_done("/pics/b.mp4", generation, false));
    assert!(!s.has_thumbnail("/pics/b.mp4"));
    assert_eq!(s.finished_jobs(), 2);

    let more = s.dispatch();
    assert_eq!(more.len(), 1);
    assert_eq!(more[0].path, "/pics/f.gif");
    assert_eq!(s.queued_jobs(), 0);
    assert_eq!(s.running_jobs(), 3);
    assert!(s.dispatch().is_empty());
}

#[test]
fn stale_generation_is_ignored() {
    let mut s = ThumbnailScheduler::new();
    let jobs = s.begin_directory_load("/pics".to_string(), &vec![file("a.png", 1)]);
    let old_generation = jobs[0].generation;
    s.on_directory_changing();
    assert!(s.directory().is_none());
    assert_eq!(s.running_jobs(), 0);
    let jobs = s.begin_directory_load("/pics".to_string(), &vec![file("a.png", 1)]);
    assert_ne!(jobs[0].generation, old_generation);
    assert!(!s.job_done("/pics/a.png", old_generation, true));
    assert!(!s.has_thumbnail("/pics/a.png"));
    assert!(s.job_done("/pics/a.png", jobs[0].generation, true));
    assert!(!s.is_loading("/pics"));
}
