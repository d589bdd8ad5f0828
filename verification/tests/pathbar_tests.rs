use dagger_explorer::explorer::{ExplorerState, PathBarEditState};
use dagger_explorer::pathbar::{path_bar_key, PathBarAction, PathBarInput};
use dagger_explorer::preferences::Preferences;
use dagger_explorer::settings::{Keybind, KeybindAction, ShortcutKey};

fn no_input() -> PathBarInput {
    PathBarInput {
        edited: false,
        escape: false,
        enter: false,
        tab: false,
        arrow_down: false,
        arrow_up: false,
        clicked: None,
        leaving: false,
    }
}

fn edit(text: &str, index: usize) -> PathBarEditState {
    PathBarEditState { text: text.to_string(), revert_path: "/h".to_string(), completion_index: index }
}

fn strings(items: &[&str]) -> Vec<String> {
    items.iter().map(|s| s.to_string()).collect()
}

#[test]
fn tab_applies_and_cycles() {
    let completions = strings(&["/h/Desktop", "/h/docs"]);
    let mut e = edit("/h/d", 0);
    let tab = PathBarInput { tab: true, ..no_input() };
    assert_eq!(path_bar_key(&mut e, &completions, "/h", &tab), PathBarAction::Stay);
    assert_eq!(e.text, "/h/Desktop/");
    assert_eq!(e.completion_index, 1);
    let mut e = edit("/h/d", 1);
    path_bar_key(&mut e, &completions, "/h", &tab);
    assert_eq!(e.text, "/h/docs/");
    assert_eq!(e.completion_index, 0);
    assert_eq!(e.revert_path, "/h");
}

#[test]
fn arrows_wrap_and_edits_reset() {
    let completions = strings(&["/h/a", "/h/b", "/h/c"]);
    let mut e = edit("/h/", 0);
    path_bar_key(&mut e, &completions, "/h", &PathBarInput { arrow_up: true, ..no_input() });
    assert_eq!(e.completion_index, 2);
    path_bar_key(&mut e, &completions, "/h", &PathBarInput { arrow_down: true, ..no_input() });
    assert_eq!(e.completion_index, 0);
    let mut e = edit("/h/", 7);
    path_bar_key(&mut e, &completions, "/h", &no_input());
    assert_eq!(e.completion_index, 0);
    let mut e = edit("/h/x", 2);
    path_bar_key(&mut e, &completions, "/h", &PathBarInput { edited: true, ..no_input() });
    assert_eq!(e.completion_index, 0);
    assert_eq!(e.text, "/h/x");
    let mut e = edit("/h/", 1);
    path_bar_key(&mut e, &Vec::new(), "/h", &PathBarInput { arrow_down: true, tab: true, ..no_input() });
    assert_eq!(e.completion_index, 0);
    assert_eq!(e.text, "/h/");
}

#[test]
fn escape_enter_click_and_leaving() {
    let completions = strings(&["/h/a", "/h/b"]);
    let mut e = edit("/h/", 1);
    assert_eq!(path_bar_key(&mut e, &completions, "/h", &PathBarInput { escape: true, tab: true, ..no_input() }), PathBarAction::Cancel);
    assert_eq!(e.text, "/h/");
    assert_eq!(path_bar_key(&mut e, &completions, "/h", &PathBarInput { enter: true, ..no_input() }), PathBarAction::Commit);
    let clicked = PathBarInput { clicked: Some(0), leaving: true, ..no_input() };
    assert_eq!(path_bar_key(&mut e, &completions, "/h", &clicked), PathBarAction::Stay);
    assert_eq!(e.text, "/h/a/");
    assert_eq!(e.completion_index, 0);
    assert_eq!(path_bar_key(&mut e, &completions, "/h", &PathBarInput { leaving: true, ..no_input() }), PathBarAction::Commit);
}

#[test]
fn keybind_capture_in_settings() {
    let mut s = ExplorerState::new_at_path("/w".to_string(), "/home/u", &Preferences::default());
    s.keybind_settings_step(None, Some(KeybindAction::GoBack), None, None);
    assert_eq!(s.capturing_keybind_action, Some(KeybindAction::GoBack));
    s.keybind_settings_step(Some(Keybind::plain(ShortcutKey::F2)), None, None, None);
    assert_eq!(s.keybind_for(KeybindAction::GoBack), Some(Keybind::plain(ShortcutKey::F2)));
    assert_eq!(s.capturing_keybind_action, None);
    s.keybind_settings_step(None, Some(KeybindAction::Copy), Some(KeybindAction::Copy), None);
    assert_eq!(s.keybind_for(KeybindAction::Copy), None);
    assert_eq!(s.capturing_keybind_action, None);
    s.keybind_settings_step(None, Some(KeybindAction::Refresh), None, Some(KeybindAction::Copy));
    assert_eq!(s.keybind_for(KeybindAction::Copy), Some(Keybind::command(ShortcutKey::C)));
    assert_eq!(s.capturing_keybind_action, Some(KeybindAction::Refresh));
}
