use dagger_explorer::completion::{directory_completions, DirCandidate};
use dagger_explorer::drives::drive_list;
use dagger_explorer::media::{ffmpeg_base_args, video_frame_attempts};
use dagger_explorer::transfer::{TransferEvent, TransferRun};
use dagger_explorer::delete::{combined_outcome, delete_failure_message, trash_failure_message};
use dagger_explorer::entries::{sort_button_label, FileEntry, SortField, SortOrder};
use dagger_explorer::settings::ThemePreset;
use dagger_explorer::theme::{close_hover, palette_for, BaseVisual, Rgba};
use dagger_explorer::launch::{open_command, terminal_attempts};
use dagger_explorer::preferences::{default_show_extensions, Preferences};
use dagger_explorer::properties::{build_properties_loading, build_properties_summary};
use dagger_explorer::status::{selected_bytes_from_listing, status_summary};
use dagger_explorer::tree::{
    collapse_node_and_descendants, edit_tree_at, enforce_single_branch, find_tree_node,
    load_children_at, path_starts_with, TreeEdit, TreeNode,
};
use dagger_explorer::view::{FileViewOptions, ViewMode};

fn dir_entry(path: &str) -> FileEntry {
    let name = path.rsplit('/').next().unwrap_or("").to_string();
    FileEntry { name, path: path.to_string(), is_dir: true, size: 0, modified_ns: 0, is_hidden: false }
}

fn file_entry(path: &str, size: u64) -> FileEntry {
    let name = path.rsplit('/').next().unwrap_or("").to_string();
    FileEntry { name, path: path.to_string(), is_dir: false, size, modified_ns: 0, is_hidden: false }
}

fn strings(items: &[&str]) -> Vec<String> {
    items.iter().map(|s| s.to_string()).collect()
}

#[test]
fn tree_root_and_leaf() {
    let root = TreeNode::root("/home/ann");
    assert_eq!(root.name, "ann");
    assert!(root.expanded);
    assert!(!root.children_loaded);
    assert_eq!(TreeNode::root("/").name, "Home");
    let leaf = TreeNode::from_path("/home/ann/docs".to_string(), true);
    assert_eq!(leaf.name, "docs");
    assert!(!leaf.expanded);
}

#[test]
fn tree_load_expand_find_collapse() {
    let mut root = TreeNode::root("/home/ann");
    let listing = vec![
        dir_entry("/home/ann/docs"),
        file_entry("/home/ann/notes.txt", 3),
        dir_entry("/home/ann/pics"),
    ];
    assert!(load_children_at(&mut root, "/home/ann", &listing));
    assert!(root.children_loaded);
    let names: Vec<String> = root.children.iter().map(|c| c.name.clone()).collect();
    assert_eq!(names, strings(&["docs", "pics"]));
    // A second load keeps the children already there.
    assert!(load_children_at(&mut root, "/home/ann", &vec![dir_entry("/home/ann/other")]));
    assert_eq!(root.children.len(), 2);

    assert!(load_children_at(&mut root, "/home/ann/docs", &vec![dir_entry("/home/ann/docs/work")]));
    assert!(edit_tree_at(&mut root, "/home/ann/docs", TreeEdit::Expand, &Vec::new()));
    assert!(edit_tree_at(&mut root, "/home/ann/docs/work", TreeEdit::Expand, &Vec::new()));
    assert!(!edit_tree_at(&mut root, "/nowhere", TreeEdit::Expand, &Vec::new()));
    let found = find_tree_node(&root, "/home/ann/docs/work").expect("node");
    assert!(found.expanded);
    assert!(find_tree_node(&root, "/nowhere").is_none());

    assert!(edit_tree_at(&mut root, "/home/ann/docs", TreeEdit::Collapse, &Vec::new()));
    assert!(!root.children[0].expanded);
    assert!(!root.children[0].children[0].expanded);
    assert!(root.expanded);

    collapse_node_and_descendants(&mut root);
    assert!(!root.expanded);
}

#[test]
fn tree_single_branch() {
    let mut root = TreeNode::root("/home/ann");
    load_children_at(&mut root, "/home/ann", &vec![dir_entry("/home/ann/docs"), dir_entry("/home/ann/pics")]);
    edit_tree_at(&mut root, "/home/ann/pics", TreeEdit::Expand, &Vec::new());
    enforce_single_branch(&mut root, "/home/ann/docs/work");
    assert!(root.expanded);
    assert!(root.children[0].expanded);
    assert!(!root.children[1].expanded);
    assert!(path_starts_with("/home/ann/docs", "/home/ann"));
    assert!(path_starts_with("/home/ann", "/home/ann/"));
    assert!(!path_starts_with("/home/annex", "/home/ann"));
    assert!(!path_starts_with("home/ann", "/home"));
}

#[test]
fn delete_messages_and_outcome() {
    assert_eq!(trash_failure_message("/t/a", "denied"), "Failed to move /t/a to trash: denied");
    assert_eq!(delete_failure_message("/t/a", "busy"), "Failed to delete /t/a: busy");
    assert_eq!(combined_outcome(vec![Ok(()), Ok(())]), Ok(()));
    assert_eq!(combined_outcome(Vec::new()), Ok(()));
    assert_eq!(
        combined_outcome(vec![Err("first".to_string()), Ok(()), Err("second".to_string()), Ok(())]),
        Err("second".to_string())
    );
}

#[test]
fn properties_dialogs() {
    let one = build_properties_loading(&strings(&["/home/ann/a.txt"]), "/elsewhere");
    assert_eq!(one.title, "a.txt");
    assert_eq!(one.location, "/home/ann");
    assert_eq!(one.item_count, 1);
    assert_eq!(one.size_label, "Calculating…");
    assert!(one.loading);
    let many = build_properties_summary(&strings(&["/a/x", "/a/y", "/a/z"]), "/a", 5, 2, 2_500_000);
    assert_eq!(many.title, "3 items");
    assert_eq!(many.location, "/a");
    assert_eq!(many.file_count, 5);
    assert_eq!(many.folder_count, 2);
    assert_eq!(many.size_label, "2,442 KB");
    assert!(!many.loading);
    let root = build_properties_loading(&strings(&["/"]), "/a");
    assert_eq!(root.title, "Properties");
    assert_eq!(root.location, "/");
}

#[test]
fn status_bar_text_and_bytes() {
    assert_eq!(status_summary(1, 5), "1 item selected / 5 items");
    assert_eq!(status_summary(0, 1), "0 items selected / 1 item");
    let listing = vec![file_entry("/d/a", 10), file_entry("/d/b", 32), dir_entry("/d/c")];
    assert_eq!(selected_bytes_from_listing(&listing, &strings(&["/d/a", "/d/b/"])), 42);
    assert_eq!(selected_bytes_from_listing(&listing, &strings(&["/d/zzz"])), 0);
}

#[test]
fn launch_commands() {
    let attempts = terminal_attempts("/w");
    let programs: Vec<String> = attempts.iter().map(|l| l.program.clone()).collect();
    assert_eq!(
        programs,
        strings(&[
            "x-terminal-emulator",
            "kitty",
            "alacritty",
            "wezterm",
            "konsole",
            "gnome-terminal",
            "xfce4-terminal",
            "tilix"
        ])
    );
    assert!(attempts[0].args.is_empty());
    assert!(attempts[0].in_directory);
    assert_eq!(attempts[3].args, strings(&["start", "--cwd", "/w"]));
    assert_eq!(attempts[1].args, strings(&["--directory", "/w"]));
    let open = open_command("/w/a.pdf");
    assert_eq!(open.program, "xdg-open");
    assert_eq!(open.args, strings(&["/w/a.pdf"]));
}

#[test]
fn completions_sorted_by_lowercase_name() {
    let cands = vec![
        DirCandidate { name: "docs".to_string(), path: "/h/docs".to_string() },
        DirCandidate { name: "Downloads".to_string(), path: "/h/Downloads".to_string() },
        DirCandidate { name: "Desktop".to_string(), path: "/h/Desktop".to_string() },
        DirCandidate { name: "music".to_string(), path: "/h/music".to_string() },
    ];
    assert_eq!(directory_completions(&cands, "d"), strings(&["/h/Desktop", "/h/docs", "/h/Downloads"]));
    assert_eq!(directory_completions(&cands, "DO"), strings(&["/h/docs", "/h/Downloads"]));
    assert_eq!(directory_completions(&cands, "").len(), 4);
    assert!(directory_completions(&cands, "x").is_empty());
}

#[test]
fn preferences_round_trip() {
    assert!(default_show_extensions());
    let d = Preferences::default();
    assert_eq!(d.view_mode, ViewMode::SmallIcons);
    assert!(!d.show_hidden_files);
    assert!(d.show_file_extensions);
    let mut options = FileViewOptions::new();
    let p = Preferences { view_mode: ViewMode::LargeList, show_hidden_files: true, show_file_extensions: false };
    p.apply_to(&mut options);
    assert_eq!(options.view_mode, ViewMode::LargeList);
    assert_eq!(Preferences::from_view_options(&options), p);
}

#[test]
fn sort_captions() {
    assert_eq!(sort_button_label(SortField::Name, SortOrder::Ascending), "Name ↑");
    assert_eq!(sort_button_label(SortField::FileSize, SortOrder::Descending), "Size ↓");
    assert_eq!(sort_button_label(SortField::Date, SortOrder::Ascending), "Date ↑");
    assert_eq!(sort_button_label(SortField::Type, SortOrder::Descending), "Type ↓");
}

#[test]
fn theme_palettes() {
    let squid = palette_for(ThemePreset::GlassSquid);
    assert_eq!(squid.base_visual, BaseVisual::Dark);
    assert_eq!(squid.glass_fill, Rgba { r: 22, g: 24, b: 32, a: 175 });
    assert_eq!(squid.selection_text, Rgba { r: 255, g: 255, b: 255, a: 255 });
    let glacier = palette_for(ThemePreset::Glacier);
    assert_eq!(glacier.base_visual, BaseVisual::Light);
    assert_eq!(glacier.marquee_stroke, Rgba { r: 52, g: 121, b: 214, a: 255 });
    assert_eq!(palette_for(ThemePreset::EmberMist).hyperlink, Rgba { r: 255, g: 182, b: 128, a: 255 });
    assert_eq!(close_hover(), Rgba { r: 232, g: 17, b: 35, a: 255 });
    for preset in ThemePreset::all() {
        let p = palette_for(preset);
        assert_eq!(p.maximize_hover, p.minimize_hover);
    }
}

#[test]
fn drives_sorted_with_root() {
    let mounts = strings(&["/home", "/boot/efi", "/boot", "/home/", "/a-b", "/a/b"]);
    assert_eq!(drive_list(&mounts), strings(&["/", "/a/b", "/a-b", "/boot", "/boot/efi", "/home"]));
    assert_eq!(drive_list(&strings(&["/mnt", "/"])), strings(&["/", "/mnt"]));
    assert_eq!(drive_list(&Vec::new()), strings(&["/"]));
}

#[test]
fn ffmpeg_arguments() {
    assert_eq!(ffmpeg_base_args(), strings(&["-hide_banner", "-loglevel", "error"]));
    let attempts = video_frame_attempts("/v/clip.mp4");
    assert_eq!(attempts.len(), 2);
    assert_eq!(
        attempts[0],
        strings(&[
            "-nostdin", "-i", "/v/clip.mp4", "-map", "0:v:0", "-frames:v", "1", "-an", "-f", "image2pipe",
            "-vcodec", "png", "pipe:1"
        ])
    );
    assert_eq!(&attempts[1][..4], &strings(&["-nostdin", "-ss", "0.5", "-i"])[..]);
    assert_eq!(attempts[1].len(), 15);
}

#[test]
fn transfer_run_bookkeeping() {
    let mut run = TransferRun::begin("/dst");
    assert_eq!(run.invalidate, strings(&["/dst"]));
    match run.progress("a.txt") {
        TransferEvent::Progress { done_files, done_bytes, current } => {
            assert_eq!((done_files, done_bytes), (0, 0));
            assert_eq!(current, "a.txt");
        }
        _ => panic!("progress expected"),
    }
    run.source_landed("/src/a.txt", "/dst/a.txt", 1, 10);
    run.source_landed("/src/dir", "/dst/dir", 3, 30);
    assert_eq!((run.done_files, run.done_bytes), (4, 40));
    match run.finish() {
        TransferEvent::Done { invalidate } => assert_eq!(
            invalidate,
            strings(&["/dst", "/src/a.txt", "/dst/a.txt", "/src", "/src/dir", "/dst/dir", "/src"])
        ),
        _ => panic!("done expected"),
    }
}
