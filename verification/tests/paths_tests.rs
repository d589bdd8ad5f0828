use dagger_explorer::paths::{
    apply_path_completion, data_dir, directory_candidate, drive_display, expand_tilde, file_name, initial_directory,
    is_filesystem_root, join_path, parent_path, path_completion_context, path_components, path_extension, paths_equal,
    preferences_path, quick_access_entries, resolve_to_absolute_path, tab_display_name, thumbs_db_path,
};

#[test]
fn parents() {
    assert_eq!(parent_path("/home/user/docs"), Some("/home/user".to_string()));
    assert_eq!(parent_path("/home"), Some("/".to_string()));
    assert_eq!(parent_path("/"), None);
    assert_eq!(parent_path("/home/user/"), Some("/home".to_string()));
}

#[test]
fn roots() {
    assert!(is_filesystem_root("/"));
    assert!(is_filesystem_root("//"));
    assert!(!is_filesystem_root("/home"));
}

#[test]
fn names_and_extensions() {
    assert_eq!(file_name("/home/user/a.txt"), Some("a.txt".to_string()));
    assert_eq!(file_name("/"), None);
    assert_eq!(file_name("/a/.."), None);
    assert_eq!(path_extension("/x/archive.tar.gz"), Some("gz".to_string()));
    assert_eq!(path_extension("/x/.bashrc"), None);
    assert_eq!(path_extension("/x/noext"), None);
    assert_eq!(path_extension("/x/trailing."), Some(String::new()));
}

#[test]
fn breadcrumb_components() {
    assert_eq!(
        path_components("/home/user"),
        vec![
            ("Root".to_string(), "/".to_string()),
            ("home".to_string(), "/home".to_string()),
            ("user".to_string(), "/home/user".to_string()),
        ]
    );
    assert_eq!(path_components("/"), vec![("Root".to_string(), "/".to_string())]);
}

#[test]
fn path_equality_is_component_wise() {
    assert!(paths_equal("/a/b/", "/a//b"));
    assert!(paths_equal("/a/./b", "/a/b"));
    assert!(!paths_equal("/a/b", "a/b"));
    assert!(!paths_equal("/a/b", "/a/c"));
}

#[test]
fn tab_names() {
    assert_eq!(tab_display_name("/home/u", "/home/u"), "Home");
    assert_eq!(tab_display_name("/", "/home/u"), "Root");
    assert_eq!(tab_display_name("/home/u/Docs", "/home/u"), "Docs");
}

#[test]
fn tilde_expansion() {
    assert_eq!(expand_tilde("~", "/home/u"), "/home/u");
    assert_eq!(expand_tilde("~/x", "/home/u"), "/home/u/x");
    assert_eq!(expand_tilde("~\\x", "/home/u"), "/home/u\\x");
    assert_eq!(expand_tilde("a~", "/home/u"), "a~");
}

#[test]
fn joining() {
    assert_eq!(join_path("/a", "b"), "/a/b");
    assert_eq!(join_path("/a/", "b"), "/a/b");
    assert_eq!(join_path("/a", "/b"), "/b");
    assert_eq!(join_path("", "b"), "b");
}

#[test]
fn data_locations() {
    assert_eq!(data_dir("/home/u"), "/home/u/.local/share/dagger");
    assert_eq!(preferences_path("/home/u"), "/home/u/.local/share/dagger/preferences.json");
    assert_eq!(thumbs_db_path("/home/u"), "/home/u/.local/share/dagger/thumbs.db");
}

#[test]
fn sidebar_shortcuts() {
    let present = vec![true, false, true, false, false, false, true];
    let entries = quick_access_entries("/home/u", &present);
    let labels: Vec<&str> = entries.iter().map(|e| e.label.as_str()).collect();
    assert_eq!(labels, vec!["Home", "Documents", "Desktop", "Projects"]);
    assert_eq!(entries[0].path, "/home/u");
    assert_eq!(entries[1].path, "/home/u/Documents");
    assert_eq!(entries[3].path, "/home/u/Projects");
    let none = quick_access_entries("/home/u", &vec![false; 7]);
    assert_eq!(none.len(), 1);
}

#[test]
fn completion_context() {
    assert_eq!(path_completion_context("/home/us", "/home/u"), ("/home".to_string(), "us".to_string()));
    assert_eq!(path_completion_context("/home/", "/home/u"), ("/home/".to_string(), String::new()));
    assert_eq!(path_completion_context("/us", "/home/u"), ("/".to_string(), "us".to_string()));
    assert_eq!(path_completion_context("~/Do", "/home/u"), ("/home/u".to_string(), "Do".to_string()));
    assert_eq!(path_completion_context("", "/home/u"), (String::new(), String::new()));
}

#[test]
fn completion_applied() {
    let mut input = "/home/us".to_string();
    apply_path_completion(&mut input, "/home/user", "/h");
    assert_eq!(input, "/home/user/");
    let mut input = "/home/".to_string();
    apply_path_completion(&mut input, "/home/user", "/h");
    assert_eq!(input, "/home/user/");
}

#[test]
fn typed_directories() {
    assert_eq!(directory_candidate("  ~/x ", "/cwd", "/home/u"), Some("/home/u/x".to_string()));
    assert_eq!(directory_candidate("rel", "/cwd", "/home/u"), Some("/cwd/rel".to_string()));
    assert_eq!(directory_candidate("/abs", "/cwd", "/home/u"), Some("/abs".to_string()));
    assert_eq!(directory_candidate("   ", "/cwd", "/home/u"), None);
}

#[test]
fn drives_and_startup_paths() {
    assert_eq!(drive_display("/"), "Root (/)");
    assert_eq!(drive_display("/mnt/usb"), "/mnt/usb");
    assert_eq!(resolve_to_absolute_path("x", Some("/cwd")), "/cwd/x");
    assert_eq!(resolve_to_absolute_path("/abs", None), "/abs");
    assert_eq!(resolve_to_absolute_path("x", None), "x");
    assert_eq!(initial_directory("/d", true, false), Some("/d".to_string()));
    assert_eq!(initial_directory("/d/f.txt", false, true), Some("/d".to_string()));
    assert_eq!(initial_directory("/missing", false, false), None);
}

#[test]
fn leading_dot_is_a_part() {
    assert_eq!(parent_path("./a"), Some(".".to_string()));
    assert_eq!(parent_path("."), Some("".to_string()));
    assert_eq!(parent_path("a"), Some("".to_string()));
    assert_eq!(parent_path("a/./b"), Some("a".to_string()));
    assert_eq!(file_name("."), None);
    assert_eq!(file_name("./a"), Some("a".to_string()));
    assert!(!paths_equal("./a", "a"));
    assert!(paths_equal("./a", "./a/"));
    assert!(paths_equal("a/./b", "a/b"));
    assert!(paths_equal("/./a", "/a"));
    assert_eq!(
        path_components("./a/b"),
        vec![("a".to_string(), "a".to_string()), ("b".to_string(), "a/b".to_string())]
    );
    assert_eq!(path_completion_context("./do", "/home/u"), (".".to_string(), "do".to_string()));
}
