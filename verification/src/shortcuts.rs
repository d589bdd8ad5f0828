//! What one frame of keyboard input does in the file view.
use vstd::prelude::*;

use crate::entries::{entry_views, FileEntry, FileEntryView};
use crate::nav::{is_grid, linear_direction_of, linear_extend_direction, neighbor_of, LinearDirection, NavKey};
use crate::selection::{
    advance_selection_with_space, contiguous_range, entry_paths, extend_selection_linear, linear_target,
    move_selection_linear, move_selection_with_arrow, settings_kept, sort_by_position,
};
use crate::settings::{binding_in, command_key, default_binding_of, same_binding, Keybind, KeybindAction, KeybindSettings, ShortcutKey};
use crate::text::copy_string;
use crate::view::{first_match, selection_has, FileViewOptions, ViewMode};

verus! {

/// Clipboard events the windowing layer turns Ctrl+C / Ctrl+X / Ctrl+V into.
#[derive(Clone, Copy, Debug, PartialEq, Eq, Structural)]
pub enum ClipboardEventKind {
    Copy,
    Cut,
    Paste,
}

/// The keyboard input of one frame, as plain values.
pub struct KeyFrame {
    /// Escape was pressed.
    pub escape: bool,
    /// Shift is held.
    pub shift: bool,
    /// The first of Space, ArrowUp, ArrowDown, ArrowLeft, ArrowRight pressed, or `Other`.
    pub nav_key: NavKey,
    pub space: bool,
    pub arrow_up: bool,
    pub arrow_down: bool,
    pub enter: bool,
    /// Actions whose binding was pressed.
    pub pressed_actions: Vec<KeybindAction>,
    /// Clipboard events, in the order they came.
    pub clipboard_events: Vec<ClipboardEventKind>,
    /// V was released with the command modifier held.
    pub command_v_released: bool,
    /// Shift+Delete was pressed.
    pub shift_delete: bool,
    /// Delete was pressed.
    pub delete: bool,
}

/// A command that keyboard input asks of the explorer.
#[derive(Clone, Copy, Debug, PartialEq, Eq, Structural)]
pub enum ShortcutCommand {
    Copy,
    Cut,
    Paste,
    Rename,
    NewFile,
    ToggleSettings,
    GoBack,
    GoForward,
    GoUp,
    Refresh,
    SelectAll,
    Trash,
    DeletePermanent,
}

/// What one frame of keyboard input did or asks for.
pub enum KeyOutcome {
    /// Nothing happened.
    Ignored,
    /// The selection changed; the view should repaint.
    SelectionChanged,
    /// The sole selected path is to be opened.
    Open(String),
    /// A command to carry out.
    Command(ShortcutCommand),
}

pub open spec fn command_for(a: KeybindAction) -> ShortcutCommand {
    match a {
        KeybindAction::Copy => ShortcutCommand::Copy,
        KeybindAction::Cut => ShortcutCommand::Cut,
        KeybindAction::Paste => ShortcutCommand::Paste,
        KeybindAction::Rename => ShortcutCommand::Rename,
        KeybindAction::NewFile => ShortcutCommand::NewFile,
        KeybindAction::OpenSettings => ShortcutCommand::ToggleSettings,
        KeybindAction::GoBack => ShortcutCommand::GoBack,
        KeybindAction::GoForward => ShortcutCommand::GoForward,
        KeybindAction::UpOneLevel => ShortcutCommand::GoUp,
        KeybindAction::Refresh => ShortcutCommand::Refresh,
        KeybindAction::SelectAll => ShortcutCommand::SelectAll,
    }
}

/// The order in which bound actions are tried.
pub open spec fn action_priority() -> Seq<KeybindAction> {
    seq![
        KeybindAction::Copy,
        KeybindAction::Cut,
        KeybindAction::Paste,
        KeybindAction::Rename,
        KeybindAction::NewFile,
        KeybindAction::OpenSettings,
        KeybindAction::GoBack,
        KeybindAction::GoForward,
        KeybindAction::UpOneLevel,
        KeybindAction::Refresh,
        KeybindAction::SelectAll,
    ]
}

/// The first action of `order` that was pressed.
pub open spec fn first_pressed(order: Seq<KeybindAction>, pressed: Seq<KeybindAction>) -> Option<KeybindAction>
    decreases order.len(),
{
    if order.len() == 0 {
        None
    } else if pressed.contains(order[0]) {
        Some(order[0])
    } else {
        first_pressed(order.drop_first(), pressed)
    }
}

pub open spec fn event_action(e: ClipboardEventKind) -> KeybindAction {
    match e {
        ClipboardEventKind::Copy => KeybindAction::Copy,
        ClipboardEventKind::Cut => KeybindAction::Cut,
        ClipboardEventKind::Paste => KeybindAction::Paste,
    }
}

/// The first clipboard event whose action still has its out-of-the-box binding.
pub open spec fn event_choice(evs: Seq<ClipboardEventKind>, kb: KeybindSettings) -> Option<KeybindAction>
    decreases evs.len(),
{
    if evs.len() == 0 {
        None
    } else if binding_in(kb, event_action(evs[0])) == default_binding_of(event_action(evs[0])) {
        Some(event_action(evs[0]))
    } else {
        event_choice(evs.drop_first(), kb)
    }
}

/// The command a frame's shortcuts ask for, before it is checked against the selection.
pub open spec fn command_of(f: KeyFrame, kb: KeybindSettings) -> Option<ShortcutCommand> {
    match first_pressed(action_priority(), f.pressed_actions@) {
        Some(a) => Some(command_for(a)),
        None => match event_choice(f.clipboard_events@, kb) {
            Some(a) => Some(command_for(a)),
            None => if !f.clipboard_events@.contains(ClipboardEventKind::Paste) && binding_in(kb, KeybindAction::Paste)
                == Some(command_key(ShortcutKey::V)) && f.command_v_released {
                Some(ShortcutCommand::Paste)
            } else if f.shift_delete {
                Some(ShortcutCommand::DeletePermanent)
            } else if f.delete {
                Some(ShortcutCommand::Trash)
            } else {
                None
            },
        },
    }
}

proof fn lemma_first_pressed_single(order: Seq<KeybindAction>, k: int, a: KeybindAction)
    requires
        0 <= k < order.len(),
        order[k] == a,
    ensures
        first_pressed(order, seq![a]) == Some(a),
    decreases k,
{
    if order[0] == a {
        assert(seq![a][0] == a);
    } else {
        assert(!seq![a].contains(order[0])) by {
            assert forall|j: int| 0 <= j < seq![a].len() implies seq![a][j] != order[0] by {}
        }
        lemma_first_pressed_single(order.drop_first(), k - 1, a);
    }
}

proof fn lemma_first_pressed_none(order: Seq<KeybindAction>, pressed: Seq<KeybindAction>)
    requires
        pressed.len() == 0,
    ensures
        first_pressed(order, pressed) is None,
    decreases order.len(),
{
    if order.len() > 0 {
        lemma_first_pressed_none(order.drop_first(), pressed);
    }
}

/// Each bound action asks for the command of the same name (Open Settings toggles the
/// settings dialog, Up One Level goes up), and so does each of Ctrl+C, Ctrl+X and Ctrl+V while
/// its action keeps its out-of-the-box binding: copying copies, cutting cuts, pasting pastes.
pub proof fn law_shortcuts_ask_for_their_namesakes(f: KeyFrame, kb: KeybindSettings)
    ensures
        f.pressed_actions@ == seq![KeybindAction::Copy] ==> command_of(f, kb) == Some(ShortcutCommand::Copy),
        f.pressed_actions@ == seq![KeybindAction::Cut] ==> command_of(f, kb) == Some(ShortcutCommand::Cut),
        f.pressed_actions@ == seq![KeybindAction::Paste] ==> command_of(f, kb) == Some(ShortcutCommand::Paste),
        f.pressed_actions@ == seq![KeybindAction::Rename] ==> command_of(f, kb) == Some(ShortcutCommand::Rename),
        f.pressed_actions@ == seq![KeybindAction::NewFile] ==> command_of(f, kb) == Some(ShortcutCommand::NewFile),
        f.pressed_actions@ == seq![KeybindAction::OpenSettings] ==> command_of(f, kb) == Some(ShortcutCommand::ToggleSettings),
        f.pressed_actions@ == seq![KeybindAction::GoBack] ==> command_of(f, kb) == Some(ShortcutCommand::GoBack),
        f.pressed_actions@ == seq![KeybindAction::GoForward] ==> command_of(f, kb) == Some(ShortcutCommand::GoForward),
        f.pressed_actions@ == seq![KeybindAction::UpOneLevel] ==> command_of(f, kb) == Some(ShortcutCommand::GoUp),
        f.pressed_actions@ == seq![KeybindAction::Refresh] ==> command_of(f, kb) == Some(ShortcutCommand::Refresh),
        f.pressed_actions@ == seq![KeybindAction::SelectAll] ==> command_of(f, kb) == Some(ShortcutCommand::SelectAll),
        f.pressed_actions@.len() == 0 && f.clipboard_events@ == seq![ClipboardEventKind::Copy] && binding_in(
            kb,
            KeybindAction::Copy,
        ) == default_binding_of(KeybindAction::Copy) ==> command_of(f, kb) == Some(ShortcutCommand::Copy),
        f.pressed_actions@.len() == 0 && f.clipboard_events@ == seq![ClipboardEventKind::Cut] && binding_in(
            kb,
            KeybindAction::Cut,
        ) == default_binding_of(KeybindAction::Cut) ==> command_of(f, kb) == Some(ShortcutCommand::Cut),
        f.pressed_actions@.len() == 0 && f.clipboard_events@ == seq![ClipboardEventKind::Paste] && binding_in(
            kb,
            KeybindAction::Paste,
        ) == default_binding_of(KeybindAction::Paste) ==> command_of(f, kb) == Some(ShortcutCommand::Paste),
{
    lemma_first_pressed_single(action_priority(), 0, KeybindAction::Copy);
    lemma_first_pressed_single(action_priority(), 1, KeybindAction::Cut);
    lemma_first_pressed_single(action_priority(), 2, KeybindAction::Paste);
    lemma_first_pressed_single(action_priority(), 3, KeybindAction::Rename);
    lemma_first_pressed_single(action_priority(), 4, KeybindAction::NewFile);
    lemma_first_pressed_single(action_priority(), 5, KeybindAction::OpenSettings);
    lemma_first_pressed_single(action_priority(), 6, KeybindAction::GoBack);
    lemma_first_pressed_single(action_priority(), 7, KeybindAction::GoForward);
    lemma_first_pressed_single(action_priority(), 8, KeybindAction::UpOneLevel);
    lemma_first_pressed_single(action_priority(), 9, KeybindAction::Refresh);
    lemma_first_pressed_single(action_priority(), 10, KeybindAction::SelectAll);
    if f.pressed_actions@.len() == 0 {
        lemma_first_pressed_none(action_priority(), f.pressed_actions@);
    }
}

/// Whether `c` applies to a selection of `n` paths.
pub open spec fn command_applies(c: ShortcutCommand, n: int) -> bool {
    match c {
        ShortcutCommand::Rename => n == 1,
        ShortcutCommand::Trash | ShortcutCommand::DeletePermanent => n > 0,
        _ => true,
    }
}

/// Up or down in an icon grid, for a frame without shift.
pub open spec fn arrow_key_of(f: KeyFrame, mode: ViewMode) -> Option<NavKey> {
    if f.shift || !is_grid(mode) {
        None
    } else if f.arrow_up {
        Some(NavKey::ArrowUp)
    } else if f.arrow_down {
        Some(NavKey::ArrowDown)
    } else {
        None
    }
}

/// Which step of keyboard handling takes effect.
pub enum KeyStage {
    Blocked,
    Escape,
    Extend(LinearDirection),
    Move(LinearDirection),
    Advance,
    Arrow(NavKey),
    Open,
    Command(ShortcutCommand),
    Nothing,
}

pub open spec fn entries_view(entries: Option<Vec<FileEntry>>) -> Option<Seq<FileEntryView>> {
    match entries {
        Some(v) => Some(entry_views(v@)),
        None => None,
    }
}

/// The step of keyboard handling that a frame `f` takes with options `o`, shown entries `es`
/// (none until the listing is complete), `columns` tiles per grid row and bindings `kb`;
/// `blocked` while the path bar or the settings dialog has the keyboard.
pub open spec fn key_stage(
    o: FileViewOptions,
    es: Option<Seq<FileEntryView>>,
    columns: int,
    kb: KeybindSettings,
    blocked: bool,
    f: KeyFrame,
) -> KeyStage {
    let sel = o.selected.deep_view();
    let dir = linear_direction_of(o.view_mode, f.nav_key);
    if o.renaming is Some || blocked {
        KeyStage::Blocked
    } else if f.escape && sel.len() > 0 {
        KeyStage::Escape
    } else if f.shift && sel.len() > 0 && dir is Some && (es matches Some(e) && linear_target(
        contiguous_range(sel, entry_paths(e)),
        e.len() as int,
        dir->0,
    ) is Some) {
        KeyStage::Extend(dir->0)
    } else if !f.shift && dir is Some && (es matches Some(e) && linear_target(
        contiguous_range(sel, entry_paths(e)),
        e.len() as int,
        dir->0,
    ) is Some) {
        KeyStage::Move(dir->0)
    } else if f.space && !f.shift && (es matches Some(e) && e.len() > 0) && sel.len() == 0 {
        KeyStage::Advance
    } else if sel.len() == 1 && arrow_key_of(f, o.view_mode) is Some && (es matches Some(e) && first_match(
        entry_paths(e),
        sel[0],
    ) >= 0 && neighbor_of(
        first_match(entry_paths(e), sel[0]),
        e.len() as int,
        o.view_mode,
        columns,
        arrow_key_of(f, o.view_mode)->0,
    ) is Some) {
        KeyStage::Arrow(arrow_key_of(f, o.view_mode)->0)
    } else if sel.len() == 1 && f.enter {
        KeyStage::Open
    } else {
        match command_of(f, kb) {
            Some(c) => if command_applies(c, sel.len() as int) {
                KeyStage::Command(c)
            } else {
                KeyStage::Nothing
            },
            None => KeyStage::Nothing,
        }
    }
}

fn pressed_contains(pressed: &Vec<KeybindAction>, a: KeybindAction) -> (r: bool)
    ensures
        r == pressed@.contains(a),
{
    let mut i: usize = 0;
    while i < pressed.len()
        invariant
            i <= pressed.len(),
            forall|k: int| 0 <= k < i ==> pressed@[k] != a,
        decreases pressed.len() - i,
    {
        if pressed[i] == a {
            return true;
        }
        i = i + 1;
    }
    false
}

fn keybind_command(a: KeybindAction) -> (r: ShortcutCommand)
    ensures
        r == command_for(a),
{
    match a {
        KeybindAction::Copy => ShortcutCommand::Copy,
        KeybindAction::Cut => ShortcutCommand::Cut,
        KeybindAction::Paste => ShortcutCommand::Paste,
        KeybindAction::Rename => ShortcutCommand::Rename,
        KeybindAction::NewFile => ShortcutCommand::NewFile,
        KeybindAction::OpenSettings => ShortcutCommand::ToggleSettings,
        KeybindAction::GoBack => ShortcutCommand::GoBack,
        KeybindAction::GoForward => ShortcutCommand::GoForward,
        KeybindAction::UpOneLevel => ShortcutCommand::GoUp,
        KeybindAction::Refresh => ShortcutCommand::Refresh,
        KeybindAction::SelectAll => ShortcutCommand::SelectAll,
    }
}

fn first_pressed_action(pressed: &Vec<KeybindAction>) -> (r: Option<KeybindAction>)
    ensures
        r == first_pressed(action_priority(), pressed@),
{
    let order: Vec<KeybindAction> = vec![
        KeybindAction::Copy,
        KeybindAction::Cut,
        KeybindAction::Paste,
        KeybindAction::Rename,
        KeybindAction::NewFile,
        KeybindAction::OpenSettings,
        KeybindAction::GoBack,
        KeybindAction::GoForward,
        KeybindAction::UpOneLevel,
        KeybindAction::Refresh,
        KeybindAction::SelectAll,
    ];
    assert(order@ == action_priority());
    assert(order@.skip(0) =~= order@);
    let mut i: usize = 0;
    while i < order.len()
        invariant
            i <= order.len(),
            order@ == action_priority(),
            first_pressed(order@.skip(i as int), pressed@) == first_pressed(action_priority(), pressed@),
        decreases order.len() - i,
    {
        assert(order@.skip(i as int)[0] == order@[i as int]);
        assert(order@.skip(i as int).drop_first() =~= order@.skip(i + 1));
        if pressed_contains(pressed, order[i]) {
            return Some(order[i]);
        }
        i = i + 1;
    }
    None
}

fn clipboard_event_action(e: ClipboardEventKind) -> (r: KeybindAction)
    ensures
        r == event_action(e),
{
    match e {
        ClipboardEventKind::Copy => KeybindAction::Copy,
        ClipboardEventKind::Cut => KeybindAction::Cut,
        ClipboardEventKind::Paste => KeybindAction::Paste,
    }
}

fn first_default_event(evs: &Vec<ClipboardEventKind>, kb: &KeybindSettings) -> (r: Option<KeybindAction>)
    ensures
        r == event_choice(evs@, *kb),
{
    let mut i: usize = 0;
    assert(evs@.skip(0) =~= evs@);
    while i < evs.len()
        invariant
            i <= evs.len(),
            event_choice(evs@.skip(i as int), *kb) == event_choice(evs@, *kb),
        decreases evs.len() - i,
    {
        assert(evs@.skip(i as int)[0] == evs@[i as int]);
        assert(evs@.skip(i as int).drop_first() =~= evs@.skip(i + 1));
        let a = clipboard_event_action(evs[i]);
        if kb.is_default_binding(a) {
            return Some(a);
        }
        i = i + 1;
    }
    None
}

fn has_paste_event(evs: &Vec<ClipboardEventKind>) -> (r: bool)
    ensures
        r == evs@.contains(ClipboardEventKind::Paste),
{
    let mut i: usize = 0;
    while i < evs.len()
        invariant
            i <= evs.len(),
            forall|k: int| 0 <= k < i ==> evs@[k] != ClipboardEventKind::Paste,
        decreases evs.len() - i,
    {
        if evs[i] == ClipboardEventKind::Paste {
            return true;
        }
        i = i + 1;
    }
    false
}

/// The command a frame's shortcuts ask for: a pressed binding first, in a fixed order; then a
/// clipboard event whose action keeps its default binding; then a released Ctrl+V when no
/// paste event came; then Shift+Delete and Delete.
pub fn shortcut_command(frame: &KeyFrame, keybinds: &KeybindSettings) -> (r: Option<ShortcutCommand>)
    ensures
        r == command_of(*frame, *keybinds),
{
    match first_pressed_action(&frame.pressed_actions) {
        Some(a) => {
            return Some(keybind_command(a));
        },
        None => {},
    }
    match first_default_event(&frame.clipboard_events, keybinds) {
        Some(a) => {
            return Some(keybind_command(a));
        },
        None => {},
    }
    if !has_paste_event(&frame.clipboard_events) && same_binding(
        keybinds.get(KeybindAction::Paste),
        Some(Keybind::command(ShortcutKey::V)),
    ) && frame.command_v_released {
        Some(ShortcutCommand::Paste)
    } else if frame.shift_delete {
        Some(ShortcutCommand::DeletePermanent)
    } else if frame.delete {
        Some(ShortcutCommand::Trash)
    } else {
        None
    }
}

/// What handling a frame does: `r` and the options `o1` it leaves, from options `o` with
/// shown entries `es`.
pub open spec fn keyboard_result(
    o: FileViewOptions,
    es: Option<Seq<FileEntryView>>,
    columns: int,
    kb: KeybindSettings,
    blocked: bool,
    f: KeyFrame,
    r: KeyOutcome,
    o1: FileViewOptions,
) -> bool {
    let sel = o.selected.deep_view();
    match key_stage(o, es, columns, kb, blocked, f) {
        KeyStage::Blocked | KeyStage::Nothing => r is Ignored && o1 == o,
        KeyStage::Escape => {
            &&& r is SelectionChanged
            &&& o1.selected@.len() == 0
            &&& o1.renaming is None
            &&& settings_kept(o1, o)
        },
        KeyStage::Extend(dir) => {
            let paths = entry_paths(es->0);
            let t = linear_target(contiguous_range(sel, paths), paths.len() as int, dir)->0;
            &&& r is SelectionChanged
            &&& o1.selected.deep_view() == sort_by_position(
                if selection_has(sel, paths[t]) {
                    sel
                } else {
                    sel.push(paths[t])
                },
                paths,
            )
            &&& o1.renaming == o.renaming
            &&& settings_kept(o1, o)
        },
        KeyStage::Move(dir) => {
            let paths = entry_paths(es->0);
            let t = linear_target(contiguous_range(sel, paths), paths.len() as int, dir)->0;
            &&& r is SelectionChanged
            &&& o1.selected.deep_view() == seq![paths[t]]
            &&& o1.renaming is None
            &&& settings_kept(o1, o)
        },
        KeyStage::Advance => {
            &&& r is SelectionChanged
            &&& o1.selected.deep_view() == seq![es->0[0].path]
            &&& o1.renaming is None
            &&& settings_kept(o1, o)
        },
        KeyStage::Arrow(key) => {
            let paths = entry_paths(es->0);
            let t = neighbor_of(first_match(paths, sel[0]), paths.len() as int, o.view_mode, columns, key)->0;
            &&& r is SelectionChanged
            &&& o1.selected.deep_view() == seq![paths[t]]
            &&& o1.renaming is None
            &&& settings_kept(o1, o)
        },
        KeyStage::Open => r matches KeyOutcome::Open(p) && p@ == sel[0] && o1 == o,
        KeyStage::Command(c) => r == KeyOutcome::Command(c) && o1 == o,
    }
}

/// Handles one frame of keyboard input in the file view: Escape clears the selection;
/// Shift with a traversal key extends a contiguous selection; a traversal key alone moves it;
/// Space with nothing selected picks the first entry; up and down move a sole selection in the
/// icon grids; Enter opens it; otherwise a shortcut asks for a command. Nothing happens while
/// a rename is under way or `blocked` (path bar or settings dialog has the keyboard).
pub fn handle_keyboard_shortcuts(
    options: &mut FileViewOptions,
    entries: &Option<Vec<FileEntry>>,
    columns: usize,
    keybinds: &KeybindSettings,
    blocked: bool,
    frame: &KeyFrame,
) -> (r: KeyOutcome)
    ensures
        keyboard_result(*old(options), entries_view(*entries), columns as int, *keybinds, blocked, *frame, r, *final(options)),
{
    let ghost o = *options;
    let ghost es = entries_view(*entries);
    if options.renaming.is_some() || blocked {
        return KeyOutcome::Ignored;
    }
    if frame.escape && options.selected.len() > 0 {
        options.clear_selection();
        return KeyOutcome::SelectionChanged;
    }
    let direction = linear_extend_direction(options.view_mode, frame.nav_key);
    if frame.shift && options.selected.len() > 0 {
        match (direction, entries) {
            (Some(dir), Some(list)) => {
                if extend_selection_linear(options, list, dir) {
                    return KeyOutcome::SelectionChanged;
                }
            },
            _ => {},
        }
    }
    if !frame.shift {
        match (direction, entries) {
            (Some(dir), Some(list)) => {
                if move_selection_linear(options, list, dir) {
                    return KeyOutcome::SelectionChanged;
                }
            },
            _ => {},
        }
    }
    if frame.space && !frame.shift {
        match entries {
            Some(list) => {
                if advance_selection_with_space(options, list) {
                    return KeyOutcome::SelectionChanged;
                }
            },
            None => {},
        }
    }
    if options.selected.len() == 1 {
        let grid = match options.view_mode {
            ViewMode::SmallIcons | ViewMode::LargeIcons => true,
            ViewMode::SmallList | ViewMode::LargeList => false,
        };
        let arrow = if frame.shift || !grid {
            None
        } else if frame.arrow_up {
            Some(NavKey::ArrowUp)
        } else if frame.arrow_down {
            Some(NavKey::ArrowDown)
        } else {
            None
        };
        match (arrow, entries) {
            (Some(key), Some(list)) => {
                if move_selection_with_arrow(options, list, columns, key) {
                    return KeyOutcome::SelectionChanged;
                }
            },
            _ => {},
        }
        if frame.enter {
            assert(options.selected.deep_view()[0] == options.selected@[0]@);
            return KeyOutcome::Open(copy_string(&options.selected[0]));
        }
    }
    match shortcut_command(frame, keybinds) {
        Some(c) => {
            let applies = match c {
                ShortcutCommand::Rename => options.selected.len() == 1,
                ShortcutCommand::Trash | ShortcutCommand::DeletePermanent => options.selected.len() > 0,
                _ => true,
            };
            if applies {
                KeyOutcome::Command(c)
            } else {
                KeyOutcome::Ignored
            }
        },
        None => KeyOutcome::Ignored,
    }
}

} // verus!
