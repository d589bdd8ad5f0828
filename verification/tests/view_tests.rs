use dagger_explorer::entries::{FileEntry, SortField, SortOrder};
use dagger_explorer::view::{prepare_entries, ClipboardMode, FileViewOptions, ViewMode};

fn entry(name: &str, is_dir: bool, hidden: bool) -> FileEntry {
    FileEntry { name: name.to_string(), path: format!("/d/{name}"), is_dir, size: 1, modified_ns: 0, is_hidden: hidden }
}

#[test]
fn new_options() {
    let o = FileViewOptions::new();
    assert_eq!(o.view_mode, ViewMode::SmallIcons);
    assert_eq!(o.sort_field, SortField::Name);
    assert_eq!(o.sort_order, SortOrder::Ascending);
    assert!(!o.show_hidden_files);
    assert!(!o.has_selection());
    assert!(o.renaming.is_none());
    assert!(o.clipboard.is_none());
}

#[test]
fn selecting() {
    let mut o = FileViewOptions::new();
    o.select_only("/a".to_string());
    assert!(o.is_selected("/a"));
    assert!(o.is_selected("/a/"));
    o.add_to_selection("/b".to_string());
    o.add_to_selection("/a".to_string());
    assert_eq!(o.selected, vec!["/a".to_string(), "/b".to_string()]);
    o.toggle_in_selection("/a".to_string());
    assert_eq!(o.selected, vec!["/b".to_string()]);
    o.toggle_in_selection("/c".to_string());
    assert_eq!(o.selected, vec!["/b".to_string(), "/c".to_string()]);
    o.clear_selection();
    assert!(!o.has_selection());
}

#[test]
fn toggling_twice_restores_membership() {
    let mut o = FileViewOptions::new();
    o.set_selection(vec!["/a".to_string(), "/b".to_string()]);
    o.toggle_in_selection("/a".to_string());
    o.toggle_in_selection("/a".to_string());
    assert!(o.is_selected("/a"));
    assert!(o.is_selected("/b"));
    assert_eq!(o.selected.len(), 2);
}

#[test]
fn renaming_follows_selection() {
    let mut o = FileViewOptions::new();
    o.select_only("/a".to_string());
    o.start_rename("/a".to_string(), "a".to_string());
    let r = o.renaming.as_ref().expect("rename");
    assert!(r.select_all_on_focus);
    assert!(!r.cancel_removes_target);
    o.set_selection(vec!["/a".to_string()]);
    assert!(o.renaming.is_some());
    o.set_selection(vec!["/b".to_string()]);
    assert!(o.renaming.is_none());
    o.start_rename_select_all("/n".to_string(), "n".to_string());
    assert!(o.renaming.as_ref().expect("rename").cancel_removes_target);
    o.toggle_in_selection("/n".to_string());
    o.toggle_in_selection("/n".to_string());
    assert!(o.renaming.is_none());
    o.start_rename("/x".to_string(), "x".to_string());
    o.select_only("/y".to_string());
    assert!(o.renaming.is_none());
}

#[test]
fn directory_change_clears_selection_but_keeps_clipboard() {
    let mut o = FileViewOptions::new();
    o.select_only("/a".to_string());
    o.clipboard = Some((ClipboardMode::Cut, vec!["/a".to_string()]));
    o.on_directory_changed();
    assert!(!o.has_selection());
    assert!(o.clipboard.is_some());
}

#[test]
fn prepared_entries_hide_hidden_and_sort() {
    let listing = vec![entry("b", false, false), entry(".h", false, true), entry("d", true, false), entry("a", false, false)];
    let mut o = FileViewOptions::new();
    let shown: Vec<String> = prepare_entries(&listing, &o).iter().map(|e| e.name.clone()).collect();
    assert_eq!(shown, vec!["d", "a", "b"]);
    o.show_hidden_files = true;
    o.set_sort(SortField::Name, SortOrder::Descending);
    let shown: Vec<String> = prepare_entries(&listing, &o).iter().map(|e| e.name.clone()).collect();
    assert_eq!(shown, vec!["d", "b", "a", ".h"]);
}
