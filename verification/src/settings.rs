//! Themes and keybindings.
use vstd::prelude::*;

use crate::text::{append_str, chars_of, string_from_chars};

verus! {

/// Colour theme of the window.
#[derive(Clone, Copy, Debug, PartialEq, Eq, Structural)]
pub enum ThemePreset {
    GlassSquid,
    Glacier,
    Nebula,
    Prismarine,
    Aurora,
    EmberMist,
}

pub open spec fn theme_label(t: ThemePreset) -> Seq<char> {
    match t {
        ThemePreset::GlassSquid => "Glass Squid"@,
        ThemePreset::Glacier => "Glacier"@,
        ThemePreset::Nebula => "Nebula"@,
        ThemePreset::Prismarine => "Prismarine"@,
        ThemePreset::Aurora => "Aurora"@,
        ThemePreset::EmberMist => "Ember Mist"@,
    }
}

impl ThemePreset {
    /// Every theme, in the order the settings list them.
    pub fn all() -> (r: Vec<ThemePreset>)
        ensures
            r@ == seq![
                ThemePreset::GlassSquid,
                ThemePreset::Glacier,
                ThemePreset::Nebula,
                ThemePreset::Prismarine,
                ThemePreset::Aurora,
                ThemePreset::EmberMist,
            ],
    {
        let mut v: Vec<ThemePreset> = Vec::new();
        v.push(ThemePreset::GlassSquid);
        v.push(ThemePreset::Glacier);
        v.push(ThemePreset::Nebula);
        v.push(ThemePreset::Prismarine);
        v.push(ThemePreset::Aurora);
        v.push(ThemePreset::EmberMist);
        v
    }

    /// Name of the theme.
    pub fn label(self) -> (r: &'static str)
        ensures
            r@ == theme_label(self),
    {
        match self {
            ThemePreset::GlassSquid => "Glass Squid",
            ThemePreset::Glacier => "Glacier",
            ThemePreset::Nebula => "Nebula",
            ThemePreset::Prismarine => "Prismarine",
            ThemePreset::Aurora => "Aurora",
            ThemePreset::EmberMist => "Ember Mist",
        }
    }
}

/// Page of the settings dialog.
#[derive(Clone, Copy, Debug, PartialEq, Eq, Structural)]
pub enum SettingsTab {
    Keybinds,
    Themes,
}

/// An action that can be bound to a key.
#[derive(Clone, Copy, Debug, PartialEq, Eq, Structural)]
pub enum KeybindAction {
    Copy,
    Paste,
    Cut,
    Rename,
    NewFile,
    OpenSettings,
    GoBack,
    GoForward,
    UpOneLevel,
    Refresh,
    SelectAll,
}

/// A key that can be bound.
#[derive(Clone, Copy, Debug, PartialEq, Eq, Structural)]
pub enum ShortcutKey {
    A,
    C,
    N,
    R,
    S,
    V,
    X,
    Delete,
    F2,
    ArrowLeft,
    ArrowRight,
    ArrowUp,
}

/// A key with modifiers.
#[derive(Clone, Copy, Debug, PartialEq, Eq, Structural)]
pub struct Keybind {
    pub command: bool,
    pub shift: bool,
    pub alt: bool,
    pub key: ShortcutKey,
}

pub open spec fn action_label(a: KeybindAction) -> Seq<char> {
    match a {
        KeybindAction::Copy => "Copy"@,
        KeybindAction::Paste => "Paste"@,
        KeybindAction::Cut => "Cut"@,
        KeybindAction::Rename => "Rename"@,
        KeybindAction::NewFile => "New File"@,
        KeybindAction::OpenSettings => "Open Settings"@,
        KeybindAction::GoBack => "Go Back"@,
        KeybindAction::GoForward => "Go Forward"@,
        KeybindAction::UpOneLevel => "Up One Level"@,
        KeybindAction::Refresh => "Refresh"@,
        KeybindAction::SelectAll => "Select All"@,
    }
}

pub open spec fn plain_key(key: ShortcutKey) -> Keybind {
    Keybind { command: false, shift: false, alt: false, key }
}

pub open spec fn command_key(key: ShortcutKey) -> Keybind {
    Keybind { command: true, shift: false, alt: false, key }
}

/// Binding each action has out of the box.
pub open spec fn default_binding_of(a: KeybindAction) -> Option<Keybind> {
    match a {
        KeybindAction::Copy => Some(command_key(ShortcutKey::C)),
        KeybindAction::Paste => Some(command_key(ShortcutKey::V)),
        KeybindAction::Cut => Some(command_key(ShortcutKey::X)),
        KeybindAction::Rename => Some(plain_key(ShortcutKey::F2)),
        KeybindAction::NewFile => Some(command_key(ShortcutKey::N)),
        KeybindAction::OpenSettings => Some(
            Keybind { command: true, shift: true, alt: false, key: ShortcutKey::S },
        ),
        KeybindAction::GoBack => None,
        KeybindAction::GoForward => None,
        KeybindAction::UpOneLevel => None,
        KeybindAction::Refresh => Some(command_key(ShortcutKey::R)),
        KeybindAction::SelectAll => Some(command_key(ShortcutKey::A)),
    }
}

impl KeybindAction {
    /// Every action, in the order the settings list them.
    pub fn all() -> (r: Vec<KeybindAction>)
        ensures
            r@ == seq![
                KeybindAction::Copy,
                KeybindAction::Paste,
                KeybindAction::Cut,
                KeybindAction::Rename,
                KeybindAction::NewFile,
                KeybindAction::OpenSettings,
                KeybindAction::GoBack,
                KeybindAction::GoForward,
                KeybindAction::UpOneLevel,
                KeybindAction::Refresh,
                KeybindAction::SelectAll,
            ],
    {
        let mut v: Vec<KeybindAction> = Vec::new();
        v.push(KeybindAction::Copy);
        v.push(KeybindAction::Paste);
        v.push(KeybindAction::Cut);
        v.push(KeybindAction::Rename);
        v.push(KeybindAction::NewFile);
        v.push(KeybindAction::OpenSettings);
        v.push(KeybindAction::GoBack);
        v.push(KeybindAction::GoForward);
        v.push(KeybindAction::UpOneLevel);
        v.push(KeybindAction::Refresh);
        v.push(KeybindAction::SelectAll);
        v
    }

    /// Name of the action.
    pub fn label(self) -> (r: &'static str)
        ensures
            r@ == action_label(self),
    {
        match self {
            KeybindAction::Copy => "Copy",
            KeybindAction::Paste => "Paste",
            KeybindAction::Cut => "Cut",
            KeybindAction::Rename => "Rename",
            KeybindAction::NewFile => "New File",
            KeybindAction::OpenSettings => "Open Settings",
            KeybindAction::GoBack => "Go Back",
            KeybindAction::GoForward => "Go Forward",
            KeybindAction::UpOneLevel => "Up One Level",
            KeybindAction::Refresh => "Refresh",
            KeybindAction::SelectAll => "Select All",
        }
    }

    /// Binding the action has out of the box.
    pub fn default_binding(self) -> (r: Option<Keybind>)
        ensures
            r == default_binding_of(self),
    {
        match self {
            KeybindAction::Copy => Some(Keybind::command(ShortcutKey::C)),
            KeybindAction::Paste => Some(Keybind::command(ShortcutKey::V)),
            KeybindAction::Cut => Some(Keybind::command(ShortcutKey::X)),
            KeybindAction::Rename => Some(Keybind::plain(ShortcutKey::F2)),
            KeybindAction::NewFile => Some(Keybind::command(ShortcutKey::N)),
            KeybindAction::OpenSettings => Some(
                Keybind { command: true, shift: true, alt: false, key: ShortcutKey::S },
            ),
            KeybindAction::GoBack => None,
            KeybindAction::GoForward => None,
            KeybindAction::UpOneLevel => None,
            KeybindAction::Refresh => Some(Keybind::command(ShortcutKey::R)),
            KeybindAction::SelectAll => Some(Keybind::command(ShortcutKey::A)),
        }
    }
}

pub open spec fn key_label(k: ShortcutKey) -> Seq<char> {
    match k {
        ShortcutKey::A => "A"@,
        ShortcutKey::C => "C"@,
        ShortcutKey::N => "N"@,
        ShortcutKey::R => "R"@,
        ShortcutKey::S => "S"@,
        ShortcutKey::V => "V"@,
        ShortcutKey::X => "X"@,
        ShortcutKey::Delete => "Delete"@,
        ShortcutKey::F2 => "F2"@,
        ShortcutKey::ArrowLeft => "Left"@,
        ShortcutKey::ArrowRight => "Right"@,
        ShortcutKey::ArrowUp => "Up"@,
    }
}

impl ShortcutKey {
    /// Name of the key.
    pub fn label(self) -> (r: &'static str)
        ensures
            r@ == key_label(self),
    {
        match self {
            ShortcutKey::A => "A",
            ShortcutKey::C => "C",
            ShortcutKey::N => "N",
            ShortcutKey::R => "R",
            ShortcutKey::S => "S",
            ShortcutKey::V => "V",
            ShortcutKey::X => "X",
            ShortcutKey::Delete => "Delete",
            ShortcutKey::F2 => "F2",
            ShortcutKey::ArrowLeft => "Left",
            ShortcutKey::ArrowRight => "Right",
            ShortcutKey::ArrowUp => "Up",
        }
    }
}

/// Text of a binding: the held modifiers and the key joined by ` + `.
pub open spec fn keybind_label(k: Keybind) -> Seq<char> {
    (if k.command {
        "Ctrl + "@
    } else {
        Seq::empty()
    }) + (if k.shift {
        "Shift + "@
    } else {
        Seq::empty()
    }) + (if k.alt {
        "Alt + "@
    } else {
        Seq::empty()
    }) + key_label(k.key)
}

impl Keybind {
    /// The key with no modifier.
    pub fn plain(key: ShortcutKey) -> (r: Keybind)
        ensures
            r == plain_key(key),
    {
        Keybind { command: false, shift: false, alt: false, key }
    }

    /// The key with the command (Ctrl) modifier.
    pub fn command(key: ShortcutKey) -> (r: Keybind)
        ensures
            r == command_key(key),
    {
        Keybind { command: true, shift: false, alt: false, key }
    }

    /// Text shown for the binding, e.g. `Ctrl + Shift + S`.
    pub fn label(self) -> (r: String)
        ensures
            r@ == keybind_label(self),
    {
        let mut out: Vec<char> = Vec::new();
        if self.command {
            append_str(&mut out, "Ctrl + ");
        }
        if self.shift {
            append_str(&mut out, "Shift + ");
        }
        if self.alt {
            append_str(&mut out, "Alt + ");
        }
        append_str(&mut out, self.key.label());
        let ghost a: Seq<char> = if self.command { "Ctrl + "@ } else { Seq::empty() };
        let ghost b: Seq<char> = if self.shift { "Shift + "@ } else { Seq::empty() };
        let ghost c: Seq<char> = if self.alt { "Alt + "@ } else { Seq::empty() };
        assert(out@ =~= a + b + c + key_label(self.key));
        string_from_chars(&out)
    }
}

/// Whether two optional bindings are the same.
pub fn same_binding(a: Option<Keybind>, b: Option<Keybind>) -> (r: bool)
    ensures
        r == (a == b),
{
    match (a, b) {
        (Some(x), Some(y)) => x.command == y.command && x.shift == y.shift && x.alt == y.alt && x.key
            == y.key,
        (None, None) => true,
        _ => false,
    }
}

/// The binding of every action.
pub struct KeybindSettings {
    pub copy: Option<Keybind>,
    pub paste: Option<Keybind>,
    pub cut: Option<Keybind>,
    pub rename: Option<Keybind>,
    pub new_file: Option<Keybind>,
    pub open_settings: Option<Keybind>,
    pub go_back: Option<Keybind>,
    pub go_forward: Option<Keybind>,
    pub up_one_level: Option<Keybind>,
    pub refresh: Option<Keybind>,
    pub select_all: Option<Keybind>,
}

/// Binding of `a` in `s`.
pub open spec fn binding_in(s: KeybindSettings, a: KeybindAction) -> Option<Keybind> {
    match a {
        KeybindAction::Copy => s.copy,
        KeybindAction::Paste => s.paste,
        KeybindAction::Cut => s.cut,
        KeybindAction::Rename => s.rename,
        KeybindAction::NewFile => s.new_file,
        KeybindAction::OpenSettings => s.open_settings,
        KeybindAction::GoBack => s.go_back,
        KeybindAction::GoForward => s.go_forward,
        KeybindAction::UpOneLevel => s.up_one_level,
        KeybindAction::Refresh => s.refresh,
        KeybindAction::SelectAll => s.select_all,
    }
}

/// `s` with `a` bound to `b`.
pub open spec fn with_binding(s: KeybindSettings, a: KeybindAction, b: Option<Keybind>) -> KeybindSettings {
    match a {
        KeybindAction::Copy => KeybindSettings { copy: b, ..s },
        KeybindAction::Paste => KeybindSettings { paste: b, ..s },
        KeybindAction::Cut => KeybindSettings { cut: b, ..s },
        KeybindAction::Rename => KeybindSettings { rename: b, ..s },
        KeybindAction::NewFile => KeybindSettings { new_file: b, ..s },
        KeybindAction::OpenSettings => KeybindSettings { open_settings: b, ..s },
        KeybindAction::GoBack => KeybindSettings { go_back: b, ..s },
        KeybindAction::GoForward => KeybindSettings { go_forward: b, ..s },
        KeybindAction::UpOneLevel => KeybindSettings { up_one_level: b, ..s },
        KeybindAction::Refresh => KeybindSettings { refresh: b, ..s },
        KeybindAction::SelectAll => KeybindSettings { select_all: b, ..s },
    }
}

fn default_copy() -> (r: Option<Keybind>)
    ensures
        r == default_binding_of(KeybindAction::Copy),
{
    KeybindAction::Copy.default_binding()
}

fn default_paste() -> (r: Option<Keybind>)
    ensures
        r == default_binding_of(KeybindAction::Paste),
{
    KeybindAction::Paste.default_binding()
}

fn default_cut() -> (r: Option<Keybind>)
    ensures
        r == default_binding_of(KeybindAction::Cut),
{
    KeybindAction::Cut.default_binding()
}

fn default_rename() -> (r: Option<Keybind>)
    ensures
        r == default_binding_of(KeybindAction::Rename),
{
    KeybindAction::Rename.default_binding()
}

fn default_new_file() -> (r: Option<Keybind>)
    ensures
        r == default_binding_of(KeybindAction::NewFile),
{
    KeybindAction::NewFile.default_binding()
}

fn default_open_settings() -> (r: Option<Keybind>)
    ensures
        r == default_binding_of(KeybindAction::OpenSettings),
{
    KeybindAction::OpenSettings.default_binding()
}

fn default_refresh() -> (r: Option<Keybind>)
    ensures
        r == default_binding_of(KeybindAction::Refresh),
{
    KeybindAction::Refresh.default_binding()
}

fn default_select_all() -> (r: Option<Keybind>)
    ensures
        r == default_binding_of(KeybindAction::SelectAll),
{
    KeybindAction::SelectAll.default_binding()
}

impl KeybindSettings {
    /// Every action with its out-of-the-box binding.
    pub fn defaults() -> (r: KeybindSettings)
        ensures
            forall|a: KeybindAction| #[trigger] binding_in(r, a) == default_binding_of(a),
    {
        KeybindSettings {
            copy: default_copy(),
            paste: default_paste(),
            cut: default_cut(),
            rename: default_rename(),
            new_file: default_new_file(),
            open_settings: default_open_settings(),
            go_back: None,
            go_forward: None,
            up_one_level: None,
            refresh: default_refresh(),
            select_all: default_select_all(),
        }
    }

    /// Binding of `action`.
    pub fn get(&self, action: KeybindAction) -> (r: Option<Keybind>)
        ensures
            r == binding_in(*self, action),
    {
        match action {
            KeybindAction::Copy => self.copy,
            KeybindAction::Paste => self.paste,
            KeybindAction::Cut => self.cut,
            KeybindAction::Rename => self.rename,
            KeybindAction::NewFile => self.new_file,
            KeybindAction::OpenSettings => self.open_settings,
            KeybindAction::GoBack => self.go_back,
            KeybindAction::GoForward => self.go_forward,
            KeybindAction::UpOneLevel => self.up_one_level,
            KeybindAction::Refresh => self.refresh,
            KeybindAction::SelectAll => self.select_all,
        }
    }

    /// Binds `action` to `binding` (or unbinds it), leaving every other action as it was.
    pub fn set(&mut self, action: KeybindAction, binding: Option<Keybind>)
        ensures
            *final(self) == with_binding(*old(self), action, binding),
            binding_in(*final(self), action) == binding,
            forall|other: KeybindAction|
                other != action ==> #[trigger] binding_in(*final(self), other) == binding_in(
                    *old(self),
                    other,
                ),
    {
        match action {
            KeybindAction::Copy => self.copy = binding,
            KeybindAction::Paste => self.paste = binding,
            KeybindAction::Cut => self.cut = binding,
            KeybindAction::Rename => self.rename = binding,
            KeybindAction::NewFile => self.new_file = binding,
            KeybindAction::OpenSettings => self.open_settings = binding,
            KeybindAction::GoBack => self.go_back = binding,
            KeybindAction::GoForward => self.go_forward = binding,
            KeybindAction::UpOneLevel => self.up_one_level = binding,
            KeybindAction::Refresh => self.refresh = binding,
            KeybindAction::SelectAll => self.select_all = binding,
        }
    }

    /// Whether `action` has its out-of-the-box binding.
    pub fn is_default_binding(&self, action: KeybindAction) -> (r: bool)
        ensures
            r == (binding_in(*self, action) == default_binding_of(action)),
    {
        same_binding(self.get(action), action.default_binding())
    }
}

impl Default for KeybindSettings {
    fn default() -> (r: KeybindSettings)
        ensures
            forall|a: KeybindAction| #[trigger] binding_in(r, a) == default_binding_of(a),
    {
        KeybindSettings::defaults()
    }
}

} // verus!
