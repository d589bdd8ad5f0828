use dagger_explorer::clipboard::ClipboardOp;
use dagger_explorer::entries::FileEntry;
use dagger_explorer::explorer::{unique_path_candidate, ExplorerState};
use dagger_explorer::listing::{FileChange, ListingEvent};
use dagger_explorer::nav::NavKey;
use dagger_explorer::preferences::Preferences;
use dagger_explorer::properties::build_properties_summary;
use dagger_explorer::settings::{Keybind, KeybindAction, ShortcutKey, ThemePreset};
use dagger_explorer::shortcuts::{ClipboardEventKind, KeyFrame, KeyOutcome, ShortcutCommand};
use dagger_explorer::transfer::{TransferEvent, TransferMode};
use dagger_explorer::view::{ClipboardMode, ViewMode};

fn entry(dir: &str, name: &str, is_dir: bool) -> FileEntry {
    FileEntry {
        name: name.to_string(),
        path: format!("{dir}/{name}"),
        is_dir,
        size: 1,
        modified_ns: 0,
        is_hidden: name.starts_with('.'),
    }
}

fn strings(items: &[&str]) -> Vec<String> {
    items.iter().map(|s| s.to_string()).collect()
}

fn frame() -> KeyFrame {
    KeyFrame {
        escape: false,
        shift: false,
        nav_key: NavKey::Other,
        space: false,
        arrow_up: false,
        arrow_down: false,
        enter: false,
        pressed_actions: Vec::new(),
        clipboard_events: Vec::new(),
        command_v_released: false,
        shift_delete: false,
        delete: false,
    }
}

/// A window at `/w` whose listing holds `a.txt`, `b.png` and the directory `sub`.
fn loaded_state() -> ExplorerState {
    let mut s = ExplorerState::new_at_path("/w".to_string(), "/home/u", &Preferences::default());
    let events = vec![
        ListingEvent::Entry(entry("/w", "b.png", false)),
        ListingEvent::Entry(entry("/w", "sub", true)),
        ListingEvent::Entry(entry("/w", "a.txt", false)),
        ListingEvent::Complete,
    ];
    assert!(s.fs_cache.apply_listing_events("/w", &events));
    s
}

#[test]
fn new_state_and_settings() {
    let prefs = Preferences { view_mode: ViewMode::LargeList, show_hidden_files: true, show_file_extensions: true };
    let mut s = ExplorerState::new_at_path("/w".to_string(), "/home/u", &prefs);
    assert_eq!(s.tabs.len(), 1);
    assert_eq!(s.active_path(), "/w");
    assert_eq!(s.view_options.view_mode, ViewMode::LargeList);
    assert!(s.is_directory_loading("/w"));
    assert_eq!(s.theme_preset(), ThemePreset::GlassSquid);
    assert!(!s.set_theme_preset(ThemePreset::GlassSquid));
    assert!(s.set_theme_preset(ThemePreset::Glacier));
    assert_eq!(s.theme_preset(), ThemePreset::Glacier);

    assert!(s.keybind_is_default(KeybindAction::Copy));
    assert_eq!(s.keybind_for(KeybindAction::Copy), Some(Keybind::command(ShortcutKey::C)));
    s.set_keybind(KeybindAction::Copy, Some(Keybind::plain(ShortcutKey::F2)));
    assert_eq!(s.keybind_for(KeybindAction::Copy), Some(Keybind::plain(ShortcutKey::F2)));
    assert!(!s.keybind_is_default(KeybindAction::Copy));
    s.reset_keybind_to_default(KeybindAction::Copy);
    assert!(s.keybind_is_default(KeybindAction::Copy));

    s.toggle_settings_dialog();
    assert!(s.settings_dialog_open);
    s.close_settings_dialog();
    assert!(!s.settings_dialog_open);
}

#[test]
fn tabs_open_switch_close() {
    let mut s = ExplorerState::new_at_path("/w".to_string(), "/home/u", &Preferences::default());
    s.new_tab("/home/u".to_string());
    assert_eq!(s.tabs.len(), 2);
    assert_eq!(s.active_tab, 1);
    assert_eq!(s.active_path(), "/home/u");
    assert_eq!(s.tabs[1].id, 1);
    s.new_tab("/tmp".to_string());
    s.set_active_tab(0);
    assert_eq!(s.active_path(), "/w");
    s.set_active_tab(9);
    assert_eq!(s.active_tab, 0);
    s.close_tab(1);
    assert_eq!(s.tabs.len(), 2);
    assert_eq!(s.active_path(), "/w");
    s.set_active_tab_by_id(2);
    assert_eq!(s.active_path(), "/tmp");
    s.close_tab_by_id(2);
    assert_eq!(s.tabs.len(), 1);
    assert_eq!(s.active_path(), "/w");
    s.close_tab(0);
    assert_eq!(s.tabs.len(), 1);
}

#[test]
fn navigation_history() {
    let mut s = loaded_state();
    assert!(!s.navigate_active("/w/a.txt".to_string(), false));
    assert_eq!(s.active_path(), "/w");
    assert!(s.navigate_active("/w/sub".to_string(), true));
    assert_eq!(s.active_path(), "/w/sub");
    s.go_back();
    assert_eq!(s.active_path(), "/w");
    s.go_forward();
    assert_eq!(s.active_path(), "/w/sub");
    s.go_up();
    assert_eq!(s.active_path(), "/w");
    s.go_back();
    assert_eq!(s.active_path(), "/w/sub");
}

#[test]
fn path_bar_commit_and_cancel() {
    let mut s = loaded_state();
    s.start_path_bar_edit();
    let edit = s.path_bar_edit.as_ref().expect("editing");
    assert_eq!(edit.text, "/w");
    assert_eq!(edit.revert_path, "/w");
    s.commit_path_bar_edit(Some("/w/".to_string()));
    assert!(s.path_bar_edit.is_none());
    assert_eq!(s.active_path(), "/w");
    s.start_path_bar_edit();
    s.commit_path_bar_edit(Some("/w/sub".to_string()));
    assert_eq!(s.active_path(), "/w/sub");
    s.start_path_bar_edit();
    s.cancel_path_bar_edit();
    assert!(s.path_bar_edit.is_none());
    s.commit_path_bar_edit(Some("/w".to_string()));
    assert_eq!(s.active_path(), "/w/sub");
}

#[test]
fn copy_cut_paste() {
    let mut s = loaded_state();
    assert!(s.copy_selection().is_none());
    s.view_options.select_only("/w/a.txt".to_string());
    assert_eq!(s.copy_selection(), Some(strings(&["/w/a.txt"])));
    assert_eq!(s.quick_toast, Some("Copied 1 item(s)".to_string()));
    assert!(s.clipboard_paste_available);
    match &s.view_options.clipboard {
        Some((mode, paths)) => {
            assert_eq!(*mode, ClipboardMode::Copy);
            assert_eq!(*paths, strings(&["/w/a.txt"]));
        }
        None => panic!("clipboard expected"),
    }
    assert_eq!(s.cut_selection(), Some(strings(&["/w/a.txt"])));
    assert_eq!(s.quick_toast, Some("Moving 1 item(s)".to_string()));

    // The system clipboard wins when it holds paths.
    let pasted = s.paste_clipboard(Some((strings(&["/x/y"]), ClipboardOp::Copy)));
    assert_eq!(pasted, Some((strings(&["/x/y"]), TransferMode::Copy)));
    assert!(s.transfer.is_active());
    // No second transfer while one runs.
    assert_eq!(s.paste_clipboard(None), None);

    s.transfer.apply_event(TransferEvent::Totals { total_files: 2, total_bytes: 5 });
    s.transfer.apply_event(TransferEvent::Done { invalidate: strings(&["/w", "/x"]) });
    s.apply_transfer_invalidation();
    assert_eq!(s.quick_toast, Some("Pasted 2 item(s)".to_string()));
    assert!(s.view_options.clipboard.is_none());
    assert!(s.view_options.selected.is_empty());
    assert!(s.fs_cache.is_listing_loading("/w"));

    // The internal clipboard is used when the system one is empty.
    s.view_options.select_only("/w/b.png".to_string());
    s.cut_selection();
    assert_eq!(s.paste_clipboard(Some((Vec::new(), ClipboardOp::Copy))), Some((strings(&["/w/b.png"]), TransferMode::Move)));
}

#[test]
fn rename_flow() {
    let mut s = loaded_state();
    s.view_options.select_only("/w/a.txt".to_string());
    s.start_rename_from_selection();
    let r = s.view_options.renaming.as_ref().expect("renaming");
    assert_eq!(r.text, "a.txt");
    s.view_options.renaming.as_mut().unwrap().text = "  c.txt ".to_string();
    let plan = s.begin_rename_commit().expect("plan");
    assert_eq!(plan.new_path, "/w/c.txt");
    assert!(s.view_options.renaming.is_none());
    assert!(s.finish_rename_commit(plan, true));
    assert_eq!(s.view_options.selected, strings(&["/w/c.txt"]));
    assert!(s.fs_cache.is_listing_loading("/w"));

    s.view_options.select_only("/w/b.png".to_string());
    s.start_rename_from_selection();
    let plan = s.begin_rename_commit();
    assert!(plan.is_none());

    s.start_rename_from_selection();
    s.view_options.renaming.as_mut().unwrap().text = "d.png".to_string();
    let plan = s.begin_rename_commit().expect("plan");
    assert!(!s.finish_rename_commit(plan, false));
    assert_eq!(s.view_options.renaming.as_ref().map(|r| r.text.clone()), Some("d.png".to_string()));
}

#[test]
fn delete_and_properties() {
    let mut s = loaded_state();
    assert!(s.selection_for_delete().is_none());
    let (paths, location) = s.show_properties_for_selection();
    assert_eq!(paths, strings(&["/w"]));
    assert_eq!(location, "/w");
    let d = s.properties_dialog.as_ref().expect("dialog");
    assert_eq!(d.title, "w");
    assert!(d.loading);
    s.set_properties_result(build_properties_summary(&paths, &location, 2, 1, 1024));
    assert_eq!(s.properties_dialog.as_ref().unwrap().size_label, "1 KB");
    s.close_properties_dialog();
    assert!(s.properties_dialog.is_none());

    s.view_options.set_selection(strings(&["/w/a.txt", "/w/b.png"]));
    let doomed = s.selection_for_delete().expect("selection");
    assert_eq!(doomed, strings(&["/w/a.txt", "/w/b.png"]));
    s.after_delete(&doomed);
    assert_eq!(s.quick_toast, Some("Deleted 2 item(s)".to_string()));
    assert!(s.view_options.selected.is_empty());
    assert!(s.fs_cache.is_listing_loading("/w"));
}

#[test]
fn created_item_is_renamed() {
    let mut s = loaded_state();
    s.after_item_created("/w/New File.txt".to_string(), "New File");
    assert_eq!(s.view_options.selected, strings(&["/w/New File.txt"]));
    let r = s.view_options.renaming.as_ref().expect("renaming");
    assert_eq!(r.text, "New File.txt");
    assert!(r.select_all_on_focus);
    assert_eq!(unique_path_candidate("/w", "New File", Some("txt"), 0), "/w/New File.txt");
    assert_eq!(unique_path_candidate("/w", "New Folder", None, 3), "/w/New Folder (3)");
}

#[test]
fn keyboard_in_the_explorer() {
    let mut s = loaded_state();
    let mut f = frame();
    f.space = true;
    f.nav_key = NavKey::Space;
    // Space with nothing selected picks the first shown entry: the directory.
    assert!(matches!(s.handle_keyboard_shortcuts(&f, 4), KeyOutcome::SelectionChanged));
    assert_eq!(s.view_options.selected, strings(&["/w/sub"]));

    let mut f = frame();
    f.enter = true;
    match s.handle_keyboard_shortcuts(&f, 4) {
        KeyOutcome::Open(p) => assert_eq!(p, "/w/sub"),
        _ => panic!("open expected"),
    }

    let mut f = frame();
    f.clipboard_events = vec![ClipboardEventKind::Copy];
    assert!(matches!(s.handle_keyboard_shortcuts(&f, 4), KeyOutcome::Command(ShortcutCommand::Copy)));

    let mut f = frame();
    f.delete = true;
    assert!(matches!(s.handle_keyboard_shortcuts(&f, 4), KeyOutcome::Command(ShortcutCommand::Trash)));

    let mut f = frame();
    f.escape = true;
    assert!(matches!(s.handle_keyboard_shortcuts(&f, 4), KeyOutcome::SelectionChanged));
    assert!(s.view_options.selected.is_empty());

    let mut f = frame();
    f.delete = true;
    assert!(matches!(s.handle_keyboard_shortcuts(&f, 4), KeyOutcome::Ignored));

    s.start_path_bar_edit();
    let mut f = frame();
    f.pressed_actions = vec![KeybindAction::Refresh];
    assert!(matches!(s.handle_keyboard_shortcuts(&f, 4), KeyOutcome::Ignored));
    s.cancel_path_bar_edit();
    assert!(matches!(s.handle_keyboard_shortcuts(&f, 4), KeyOutcome::Command(ShortcutCommand::Refresh)));
}

#[test]
fn select_all_open_and_copy_paths() {
    let mut s = loaded_state();
    s.select_all_active();
    assert_eq!(s.view_options.selected, strings(&["/w/sub", "/w/a.txt", "/w/b.png"]));
    assert_eq!(s.copy_selection_as_paths(), Some("/w/sub\n/w/a.txt\n/w/b.png".to_string()));
    assert_eq!(s.quick_toast, Some("Copied 3 path(s)".to_string()));
    assert_eq!(s.open_selection(false), strings(&["/w/sub", "/w/a.txt", "/w/b.png"]));
    s.view_options.select_only("/w/sub".to_string());
    assert!(s.open_selection(true).is_empty());
    assert_eq!(s.active_path(), "/w/sub");
}

#[test]
fn watcher_changes_and_thumbnails() {
    let mut s = loaded_state();
    let changes = vec![
        FileChange::Present("/w/new.jpg".to_string(), Some(entry("/w", "new.jpg", false))),
        FileChange::Gone("/w/a.txt".to_string()),
    ];
    assert!(s.apply_fs_notify_changes(&changes));
    let names: Vec<String> = s.fs_cache.listing("/w").unwrap().entries.iter().map(|e| e.name.clone()).collect();
    assert_eq!(names, strings(&["sub", "b.png", "new.jpg"]));
    let jobs = s.schedule_directory_thumbnails("/w");
    assert_eq!(jobs.len(), 2);
    assert!(s.is_directory_loading("/w"));
    assert!(s.schedule_directory_thumbnails("/w").is_empty());
}

#[test]
fn tree_population() {
    let mut s = loaded_state();
    s.populate_tree_children("/home/u");
    assert!(s.fs_cache.is_listing_loading("/home/u") || s.fs_cache.listing("/home/u").is_some());
    s.fs_cache.apply_listing_events(
        "/home/u",
        &vec![ListingEvent::Entry(entry("/home/u", "docs", true)), ListingEvent::Complete],
    );
    s.populate_tree_children("/home/u");
    let node = s.tree_node("/home/u").expect("root");
    assert!(node.children_loaded);
    assert_eq!(node.children.len(), 1);
    s.toggle_tree_expand("/home/u/docs");
    assert!(s.tree_node("/home/u/docs").map(|n| n.expanded).unwrap_or(false));
}
