use dagger_explorer::settings::{same_binding, Keybind, KeybindAction, KeybindSettings, ShortcutKey, ThemePreset};

#[test]
fn theme_presets() {
    let all = ThemePreset::all();
    assert_eq!(all.len(), 6);
    assert_eq!(all[0], ThemePreset::GlassSquid);
    assert_eq!(ThemePreset::EmberMist.label(), "Ember Mist");
    assert_eq!(ThemePreset::GlassSquid.label(), "Glass Squid");
}

#[test]
fn keybind_labels() {
    assert_eq!(Keybind::command(ShortcutKey::C).label(), "Ctrl + C");
    assert_eq!(Keybind::plain(ShortcutKey::F2).label(), "F2");
    let k = Keybind { command: true, shift: true, alt: true, key: ShortcutKey::ArrowLeft };
    assert_eq!(k.label(), "Ctrl + Shift + Alt + Left");
    assert_eq!(KeybindAction::UpOneLevel.label(), "Up One Level");
}

#[test]
fn default_bindings() {
    let kb = KeybindSettings::defaults();
    assert_eq!(kb.get(KeybindAction::Copy), Some(Keybind::command(ShortcutKey::C)));
    assert_eq!(kb.get(KeybindAction::Rename), Some(Keybind::plain(ShortcutKey::F2)));
    assert_eq!(
        kb.get(KeybindAction::OpenSettings),
        Some(Keybind { command: true, shift: true, alt: false, key: ShortcutKey::S })
    );
    assert_eq!(kb.get(KeybindAction::GoBack), None);
    for action in KeybindAction::all() {
        assert!(kb.is_default_binding(action));
        assert_eq!(kb.get(action), action.default_binding());
    }
    let d: KeybindSettings = Default::default();
    assert_eq!(d.get(KeybindAction::Paste), Some(Keybind::command(ShortcutKey::V)));
}

#[test]
fn set_then_get() {
    let mut kb = KeybindSettings::defaults();
    let k = Keybind::plain(ShortcutKey::Delete);
    kb.set(KeybindAction::Refresh, Some(k));
    assert_eq!(kb.get(KeybindAction::Refresh), Some(k));
    assert!(!kb.is_default_binding(KeybindAction::Refresh));
    assert!(kb.is_default_binding(KeybindAction::Copy));
    kb.set(KeybindAction::Copy, None);
    assert_eq!(kb.get(KeybindAction::Copy), None);
    assert_eq!(kb.get(KeybindAction::Refresh), Some(k));
}

#[test]
fn binding_equality() {
    assert!(same_binding(None, None));
    assert!(same_binding(Some(Keybind::plain(ShortcutKey::A)), Some(Keybind::plain(ShortcutKey::A))));
    assert!(!same_binding(Some(Keybind::plain(ShortcutKey::A)), Some(Keybind::command(ShortcutKey::A))));
    assert!(!same_binding(Some(Keybind::plain(ShortcutKey::A)), None));
}
