use dagger_explorer::entries::{is_hidden_entry, sort_entries_by, FileEntry, SortField, SortOrder};

fn entry(name: &str, is_dir: bool, size: u64, modified_ns: u128) -> FileEntry {
    FileEntry {
        name: name.to_string(),
        path: format!("/d/{name}"),
        is_dir,
        size,
        modified_ns,
        is_hidden: name.starts_with('.'),
    }
}

fn names(es: &[FileEntry]) -> Vec<String> {
    es.iter().map(|e| e.name.clone()).collect()
}

#[test]
fn names_types_and_sizes() {
    let f = entry("Report.final.PDF", false, 1536, 0);
    assert_eq!(f.extension(), Some("PDF".to_string()));
    assert_eq!(f.display_name(true), "Report.final.PDF");
    assert_eq!(f.display_name(false), "Report.final");
    assert_eq!(f.type_label(), "PDF file");
    assert_eq!(f.formatted_size(), "1.5 KB");
    let d = entry("photos.2020", true, 4096, 0);
    assert_eq!(d.extension(), None);
    assert_eq!(d.display_name(false), "photos.2020");
    assert_eq!(d.type_label(), "Folder");
    assert_eq!(d.formatted_size(), "");
    let plain = entry("Makefile", false, 10, 0);
    assert_eq!(plain.type_label(), "File");
    let dotted = entry("name.", false, 10, 0);
    assert_eq!(dotted.type_label(), "File");
}

#[test]
fn folders_first_then_by_name() {
    let es = vec![
        entry("b.txt", false, 1, 0),
        entry("Zeta", true, 0, 0),
        entry("A.txt", false, 1, 0),
        entry("alpha", true, 0, 0),
    ];
    let sorted = sort_entries_by(es, SortField::Name, SortOrder::Ascending);
    assert_eq!(names(&sorted), vec!["alpha", "Zeta", "A.txt", "b.txt"]);
}

#[test]
fn descending_keeps_folders_first() {
    let es = vec![entry("a", false, 1, 0), entry("b", false, 1, 0), entry("dir", true, 0, 0)];
    let sorted = sort_entries_by(es, SortField::Name, SortOrder::Descending);
    assert_eq!(names(&sorted), vec!["dir", "b", "a"]);
}

#[test]
fn by_size_date_and_type() {
    let es = vec![
        entry("big.zip", false, 300, 3_000_000_000),
        entry("small.txt", false, 100, 1_000_000_000),
        entry("mid.png", false, 200, 2_500_000_000),
    ];
    let by_size = sort_entries_by(es.iter().map(|e| e.duplicate()).collect(), SortField::FileSize, SortOrder::Ascending);
    assert_eq!(names(&by_size), vec!["small.txt", "mid.png", "big.zip"]);
    let by_date = sort_entries_by(es.iter().map(|e| e.duplicate()).collect(), SortField::Date, SortOrder::Descending);
    assert_eq!(names(&by_date), vec!["big.zip", "mid.png", "small.txt"]);
    let by_type = sort_entries_by(es, SortField::Type, SortOrder::Ascending);
    assert_eq!(names(&by_type), vec!["mid.png", "small.txt", "big.zip"]);
}

#[test]
fn sorting_is_stable_for_ties() {
    let es = vec![entry("x", false, 5, 0), entry("y", false, 5, 0), entry("z", false, 5, 0)];
    let sorted = sort_entries_by(es, SortField::FileSize, SortOrder::Descending);
    assert_eq!(names(&sorted), vec!["x", "y", "z"]);
}

#[test]
fn sorting_sorted_entries_changes_nothing() {
    let es = vec![entry("d", true, 0, 0), entry("a", false, 1, 0), entry("b", false, 1, 0)];
    let once = sort_entries_by(es, SortField::Name, SortOrder::Ascending);
    let twice = sort_entries_by(once.iter().map(|e| e.duplicate()).collect(), SortField::Name, SortOrder::Ascending);
    assert_eq!(names(&once), names(&twice));
}

#[test]
fn hidden_entries() {
    assert!(is_hidden_entry(".git", false));
    assert!(!is_hidden_entry("git", false));
    assert!(is_hidden_entry("git", true));
}
