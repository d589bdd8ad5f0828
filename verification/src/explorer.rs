//! The explorer's state: tabs, listings, selection, dialogs and settings, and what each user
//! action does to them.
use vstd::prelude::*;

use crate::listing::{cache_wf, invalidated, lookup, requested, FsCache, FsCacheView};
use crate::paths::{paths_equal, same_path};
use crate::preferences::{prefs_of, Preferences};
use crate::properties::PropertiesDialog;
use crate::settings::{binding_in, default_binding_of, keybind_label, Keybind, KeybindAction, KeybindSettings, SettingsTab, ThemePreset};
use crate::tab::{navigated, went_back, went_forward, ExplorerTab, TabView};
use crate::text::{append_str, chars_of, copy_string, copy_strings, string_from_chars};
use crate::format::{decimal_chars, decimal_digits};
use crate::clipboard::ClipboardOp;
use crate::transfer::TransferMode;
use crate::view::{ClipboardMode, RenameState};
use crate::thumbs::ThumbnailScheduler;
use crate::transfer::TransferManager;
use crate::tree::{dir_leaves, edit_tree_at, edit_view, find_tree_node, find_view, path_prefix, tree_view, TreeEdit, TreeNode, TreeView};
use crate::view::FileViewOptions;

verus! {

/// The path bar while its text is being edited.
pub struct PathBarEditState {
    pub text: String,
    pub revert_path: String,
    pub completion_index: usize,
}

/// Everything the explorer window keeps between frames.
pub struct ExplorerState {
    pub tabs: Vec<ExplorerTab>,
    pub active_tab: usize,
    pub next_tab_id: u64,
    pub fs_cache: FsCache,
    pub file_tree: TreeNode,
    pub view_options: FileViewOptions,
    pub transfer: TransferManager,
    pub thumbnails: ThumbnailScheduler,
    pub clipboard_paste_available: bool,
    pub path_bar_edit: Option<PathBarEditState>,
    pub quick_toast: Option<String>,
    pub properties_dialog: Option<PropertiesDialog>,
    pub theme_preset: ThemePreset,
    pub keybinds: KeybindSettings,
    pub settings_dialog_open: bool,
    pub settings_ignore_next_outside_click: bool,
    pub settings_tab: SettingsTab,
    pub capturing_keybind_action: Option<KeybindAction>,
}

/// The tabs as values.
pub open spec fn tab_views(tabs: Seq<ExplorerTab>) -> Seq<TabView> {
    tabs.map_values(|t: ExplorerTab| t@)
}

/// At least one tab, the active one among them, every tab id below the next one, and a
/// well-formed listing cache.
pub open spec fn explorer_wf(s: ExplorerState) -> bool {
    &&& s.tabs.len() >= 1
    &&& s.active_tab < s.tabs.len()
    &&& forall|i: int| 0 <= i < s.tabs.len() ==> (#[trigger] s.tabs@[i]).id < s.next_tab_id
    &&& cache_wf(s.fs_cache@)
}

/// Location of the active tab.
pub open spec fn active_location(s: ExplorerState) -> Seq<char> {
    s.tabs@[s.active_tab as int]@.current
}

/// The settings dialog and keybinding state are as they were.
pub open spec fn settings_same(a: ExplorerState, b: ExplorerState) -> bool {
    &&& a.theme_preset == b.theme_preset
    &&& a.keybinds == b.keybinds
    &&& a.settings_dialog_open == b.settings_dialog_open
    &&& a.settings_ignore_next_outside_click == b.settings_ignore_next_outside_click
    &&& a.settings_tab == b.settings_tab
    &&& a.capturing_keybind_action == b.capturing_keybind_action
}

/// Tabs, listings, tree, view, transfers and thumbnails are as they were.
pub open spec fn content_same(a: ExplorerState, b: ExplorerState) -> bool {
    &&& a.tabs == b.tabs
    &&& a.active_tab == b.active_tab
    &&& a.next_tab_id == b.next_tab_id
    &&& a.fs_cache == b.fs_cache
    &&& a.file_tree == b.file_tree
    &&& a.view_options == b.view_options
    &&& a.transfer == b.transfer
    &&& a.thumbnails == b.thumbnails
    &&& a.clipboard_paste_available == b.clipboard_paste_available
}

/// The path bar, toast and properties dialog are as they were.
pub open spec fn dialogs_same(a: ExplorerState, b: ExplorerState) -> bool {
    &&& a.path_bar_edit == b.path_bar_edit
    &&& a.quick_toast == b.quick_toast
    &&& a.properties_dialog == b.properties_dialog
}

/// The view and thumbnails after the shown directory changes: nothing selected, no rename,
/// no thumbnail work.
pub open spec fn left_directory(a: ExplorerState, b: ExplorerState) -> bool {
    &&& a.view_options.selected@.len() == 0
    &&& a.view_options.renaming is None
    &&& crate::selection::settings_kept(a.view_options, b.view_options)
    &&& a.thumbnails@ == crate::thumbs::reset_view(None, crate::thumbs::next_generation(b.thumbnails@.generation))
}

/// Everything but the tabs, the listings, the view, the thumbnails and the path bar is as
/// it was.
pub open spec fn rest_same(a: ExplorerState, b: ExplorerState) -> bool {
    &&& a.file_tree == b.file_tree
    &&& a.transfer == b.transfer
    &&& a.clipboard_paste_available == b.clipboard_paste_available
    &&& a.quick_toast == b.quick_toast
    &&& a.properties_dialog == b.properties_dialog
    &&& settings_same(a, b)
}

/// Active tab index after closing tab `index` of `n` when `active` was shown.
pub open spec fn active_after_close(active: int, index: int, n: int) -> int {
    if active >= n - 1 {
        n - 2
    } else if index < active {
        active - 1
    } else {
        active
    }
}

/// Index of the first tab with id `id`, or -1.
pub open spec fn tab_index_of(tabs: Seq<ExplorerTab>, id: u64) -> int
    decreases tabs.len(),
{
    if tabs.len() == 0 {
        -1
    } else {
        let k = tab_index_of(tabs.drop_last(), id);
        if k >= 0 {
            k
        } else if tabs.last().id == id {
            tabs.len() - 1
        } else {
            -1
        }
    }
}

proof fn lemma_tab_index(tabs: Seq<ExplorerTab>, id: u64)
    ensures
        -1 <= tab_index_of(tabs, id) < tabs.len(),
        tab_index_of(tabs, id) >= 0 ==> tabs[tab_index_of(tabs, id)].id == id,
        forall|k: int| 0 <= k < tabs.len() && (tab_index_of(tabs, id) == -1 || k < tab_index_of(tabs, id))
            ==> (#[trigger] tabs[k]).id != id,
    decreases tabs.len(),
{
    if tabs.len() > 0 {
        let d = tabs.drop_last();
        lemma_tab_index(d, id);
        assert forall|k: int| 0 <= k < tabs.len() && (tab_index_of(tabs, id) == -1 || k < tab_index_of(tabs, id))
            implies (#[trigger] tabs[k]).id != id by {
            if k < d.len() {
                assert(tabs[k] == d[k]);
            }
        }
        if tab_index_of(d, id) >= 0 {
            assert(tabs[tab_index_of(d, id)] == d[tab_index_of(d, id)]);
        }
    }
}

fn tab_position(tabs: &Vec<ExplorerTab>, id: u64) -> (r: Option<usize>)
    ensures
        match r {
            Some(i) => i == tab_index_of(tabs@, id),
            None => tab_index_of(tabs@, id) == -1,
        },
{
    proof {
        lemma_tab_index(tabs@, id);
    }
    let mut i: usize = 0;
    while i < tabs.len()
        invariant
            i <= tabs.len(),
            -1 <= tab_index_of(tabs@, id) < tabs.len(),
            tab_index_of(tabs@, id) >= 0 ==> tabs@[tab_index_of(tabs@, id)].id == id,
            forall|k: int| 0 <= k < tabs.len() && (tab_index_of(tabs@, id) == -1 || k < tab_index_of(tabs@, id))
                ==> (#[trigger] tabs@[k]).id != id,
            tab_index_of(tabs@, id) == -1 || tab_index_of(tabs@, id) >= i,
        decreases tabs.len() - i,
    {
        if tabs[i].id == id {
            return Some(i);
        }
        i = i + 1;
    }
    None
}

/// `<verb> <n> item(s)`, the text of a toast about `n` items.
pub open spec fn items_message(verb: Seq<char>, n: nat) -> Seq<char> {
    verb + " "@ + decimal_digits(n) + " item(s)"@
}

fn items_toast(verb: &str, n: usize) -> (r: String)
    ensures
        r@ == items_message(verb@, n as nat),
{
    let mut out = chars_of(verb);
    append_str(&mut out, " ");
    let digits = decimal_chars(n as u64);
    crate::text::append_chars(&mut out, &digits);
    append_str(&mut out, " item(s)");
    assert(out@ =~= items_message(verb@, n as nat));
    string_from_chars(&out)
}

/// What a paste takes: the system clipboard when it holds paths, else the explorer's own.
pub open spec fn paste_source(
    system: Option<(Seq<Seq<char>>, ClipboardOp)>,
    internal: Option<(ClipboardMode, Seq<Seq<char>>)>,
) -> Option<(Seq<Seq<char>>, TransferMode)> {
    match system {
        Some((ps, op)) if ps.len() > 0 => Some((ps, match op {
            ClipboardOp::Copy => TransferMode::Copy,
            ClipboardOp::Move => TransferMode::Move,
        })),
        _ => match internal {
            Some((m, ps)) if ps.len() > 0 => Some((ps, match m {
                ClipboardMode::Copy => TransferMode::Copy,
                ClipboardMode::Cut => TransferMode::Move,
            })),
            _ => None,
        },
    }
}

/// A paste moves what was cut and copies what was copied: paths on the system clipboard with
/// the move operation are moved and with the copy operation copied; failing those, the
/// explorer's own clipboard moves after a cut and copies after a copy; with no paths on either
/// there is nothing to paste.
pub proof fn law_paste_mode_follows_clipboard_operation(
    system: Option<(Seq<Seq<char>>, ClipboardOp)>,
    internal: Option<(ClipboardMode, Seq<Seq<char>>)>,
)
    ensures
        system is Some && (system->0).1 is Move && (system->0).0.len() > 0 ==> paste_source(system, internal)
            == Some(((system->0).0, TransferMode::Move)),
        system is Some && (system->0).1 is Copy && (system->0).0.len() > 0 ==> paste_source(system, internal)
            == Some(((system->0).0, TransferMode::Copy)),
        (system is None || (system->0).0.len() == 0) && internal is Some && (internal->0).0 is Cut
            && (internal->0).1.len() > 0 ==> paste_source(system, internal) == Some(((internal->0).1, TransferMode::Move)),
        (system is None || (system->0).0.len() == 0) && internal is Some && (internal->0).0 is Copy
            && (internal->0).1.len() > 0 ==> paste_source(system, internal) == Some(((internal->0).1, TransferMode::Copy)),
        (system is None || (system->0).0.len() == 0) && (internal is None || (internal->0).1.len() == 0)
            ==> paste_source(system, internal) is None,
{
}

pub open spec fn system_view(system: Option<(Vec<String>, ClipboardOp)>) -> Option<(Seq<Seq<char>>, ClipboardOp)> {
    match system {
        Some((ps, op)) => Some((ps.deep_view(), op)),
        None => None,
    }
}

pub open spec fn internal_view(c: Option<(ClipboardMode, Vec<String>)>) -> Option<(ClipboardMode, Seq<Seq<char>>)> {
    match c {
        Some((m, ps)) => Some((m, ps.deep_view())),
        None => None,
    }
}

/// The cache after each of `ps` in turn is dropped and requested again.
pub open spec fn reloaded(c: FsCacheView, ps: Seq<Seq<char>>) -> FsCacheView
    decreases ps.len(),
{
    if ps.len() == 0 {
        c
    } else {
        let before = reloaded(c, ps.drop_last());
        requested(invalidated(before, ps.last()), ps.last())
    }
}

fn reload_paths(cache: &mut FsCache, paths: &Vec<String>)
    ensures
        final(cache)@ == reloaded(old(cache)@, paths.deep_view()),
        cache_wf(old(cache)@) ==> cache_wf(final(cache)@),
{
    let ghost c0 = cache@;
    let ghost ps = paths.deep_view();
    let mut i: usize = 0;
    assert(ps.take(0) =~= Seq::<Seq<char>>::empty());
    while i < paths.len()
        invariant
            i <= paths.len(),
            ps == paths.deep_view(),
            cache@ == reloaded(c0, ps.take(i as int)),
            cache_wf(c0) ==> cache_wf(cache@),
        decreases paths.len() - i,
    {
        assert(ps.take(i + 1).drop_last() =~= ps.take(i as int));
        assert(ps.take(i + 1).last() == paths@[i as int]@);
        cache.invalidate(paths[i].as_str());
        cache.request_listing(copy_string(&paths[i]));
        i = i + 1;
    }
    assert(ps.take(i as int) =~= ps);
}

/// Parents of the paths that have one, in order.
pub open spec fn parent_list(ps: Seq<Seq<char>>) -> Seq<Seq<char>>
    decreases ps.len(),
{
    if ps.len() == 0 {
        Seq::empty()
    } else {
        match crate::paths::parent_of(ps.last()) {
            Some(p) => parent_list(ps.drop_last()).push(p),
            None => parent_list(ps.drop_last()),
        }
    }
}

fn parents_of(paths: &Vec<String>) -> (r: Vec<String>)
    ensures
        r.deep_view() == parent_list(paths.deep_view()),
{
    let ghost ps = paths.deep_view();
    let mut out: Vec<String> = Vec::new();
    let mut i: usize = 0;
    assert(ps.take(0) =~= Seq::<Seq<char>>::empty());
    while i < paths.len()
        invariant
            i <= paths.len(),
            ps == paths.deep_view(),
            out.deep_view() == parent_list(ps.take(i as int)),
        decreases paths.len() - i,
    {
        assert(ps.take(i + 1).drop_last() =~= ps.take(i as int));
        assert(ps.take(i + 1).last() == paths@[i as int]@);
        match crate::paths::parent_path(paths[i].as_str()) {
            Some(p) => {
                let ghost before = out.deep_view();
                out.push(p);
                assert(out.deep_view() =~= before.push(p@));
            },
            None => {},
        }
        i = i + 1;
    }
    assert(ps.take(i as int) =~= ps);
    out
}

/// Name put in the rename field: the name the listing of `dir` gives `path`, else its final
/// part, else nothing.
pub open spec fn rename_text(listing: Option<crate::listing::ListingView>, path: Seq<char>) -> Seq<char> {
    let from_listing = match listing {
        Some(l) => entry_name_in(l.entries, path),
        None => None,
    };
    match from_listing {
        Some(n) => n,
        None => match crate::paths::file_name_of(path) {
            Some(n) => n,
            None => Seq::empty(),
        },
    }
}

/// Name of the first of `es` at `path`.
pub open spec fn entry_name_in(es: Seq<crate::entries::FileEntryView>, path: Seq<char>) -> Option<Seq<char>>
    decreases es.len(),
{
    if es.len() == 0 {
        None
    } else if same_path(es[0].path, path) {
        Some(es[0].name)
    } else {
        entry_name_in(es.drop_first(), path)
    }
}

fn entry_name(entries: &Vec<crate::entries::FileEntry>, path: &str) -> (r: Option<String>)
    ensures
        match r {
            Some(n) => entry_name_in(crate::entries::entry_views(entries@), path@) == Some(n@),
            None => entry_name_in(crate::entries::entry_views(entries@), path@) is None,
        },
{
    let ghost es = crate::entries::entry_views(entries@);
    let mut i: usize = 0;
    assert(es.skip(0) =~= es);
    while i < entries.len()
        invariant
            i <= entries.len(),
            es == crate::entries::entry_views(entries@),
            entry_name_in(es.skip(i as int), path@) == entry_name_in(es, path@),
        decreases entries.len() - i,
    {
        assert(es.skip(i as int)[0] == entries@[i as int]@);
        assert(es.skip(i as int).drop_first() =~= es.skip(i + 1));
        if paths_equal(entries[i].path.as_str(), path) {
            return Some(copy_string(&entries[i].name));
        }
        i = i + 1;
    }
    None
}

/// Name of new item number `index` in a directory: `base`, then `base (1)`, `base (2)`…,
/// with `.ext` after it when there is an extension.
pub open spec fn candidate_name(base: Seq<char>, index: nat, extension: Option<Seq<char>>) -> Seq<char> {
    let stem = if index == 0 {
        base
    } else {
        base + " ("@ + decimal_digits(index) + ")"@
    };
    match extension {
        Some(e) => stem + "."@ + e,
        None => stem,
    }
}

/// The counter goes before the extension: a new item's name with extension `e` is its name
/// without one, then `.` and `e`; that name is `base`, or `base (n)` for item `n > 0`. When
/// `e` holds no `.` and something stands before it, the extension read back from the name is
/// `e` itself.
pub proof fn law_candidate_counter_before_extension(base: Seq<char>, index: nat, e: Seq<char>)
    ensures
        candidate_name(base, index, Some(e)) == candidate_name(base, index, None) + "."@ + e,
        index == 0 ==> candidate_name(base, index, None) == base,
        index > 0 ==> candidate_name(base, index, None) == base + " ("@ + decimal_digits(index) + ")"@,
        (forall|k: int| 0 <= k < e.len() ==> e[k] != '.') && (index > 0 || base.len() > 0)
            ==> crate::paths::extension_of_name(candidate_name(base, index, Some(e))) == Some(e),
{
    reveal_strlit(".");
    reveal_strlit(" (");
    reveal_strlit(")");
    let p = candidate_name(base, index, None);
    let s = candidate_name(base, index, Some(e));
    assert(s =~= p + "."@ + e);
    if (forall|k: int| 0 <= k < e.len() ==> e[k] != '.') && (index > 0 || base.len() > 0) {
        assert(p.len() > 0);
        crate::text::lemma_last_index_of(s, '.');
        let d = crate::text::last_index_of(s, '.');
        assert(s[p.len() as int] == '.');
        if d < p.len() {
            assert(s[p.len() as int] != '.');
        }
        if d > p.len() {
            assert(s[d] == e[d - p.len() - 1]);
        }
        assert(d == p.len());
        assert(s.subrange(d + 1, s.len() as int) =~= e);
    }
}

/// Path tried for new item number `index` in `directory`; the caller takes the first that does
/// not exist, trying at most 10000.
pub fn unique_path_candidate(directory: &str, base_name: &str, extension: Option<&str>, index: u32) -> (r: String)
    ensures
        r@ == crate::paths::join_of(
            directory@,
            candidate_name(
                base_name@,
                index as nat,
                match extension {
                    Some(e) => Some(e@),
                    None => None,
                },
            ),
        ),
{
    let mut name = chars_of(base_name);
    if index > 0 {
        append_str(&mut name, " (");
        let digits = decimal_chars(index as u64);
        crate::text::append_chars(&mut name, &digits);
        append_str(&mut name, ")");
    }
    match extension {
        Some(e) => {
            append_str(&mut name, ".");
            append_str(&mut name, e);
        },
        None => {},
    }
    let ghost ext = match extension {
        Some(e) => Some(e@),
        None => None,
    };
    assert(name@ =~= candidate_name(base_name@, index as nat, ext));
    let name = string_from_chars(&name);
    crate::paths::join_path(directory, name.as_str())
}

/// A rename about to be carried out: the rename as it stood, and the path it moves to.
pub struct RenamePlan {
    pub rename: RenameState,
    pub new_path: String,
}

/// Where a rename to `text` moves `path`: `None` when the trimmed text is empty, the path has
/// no parent, or the name is unchanged.
pub open spec fn rename_destination(path: Seq<char>, text: Seq<char>) -> Option<Seq<char>> {
    let name = crate::text::trim_of(text);
    if name.len() == 0 {
        None
    } else {
        match crate::paths::parent_of(path) {
            None => None,
            Some(parent) => {
                let to = crate::paths::join_of(parent, name);
                if same_path(to, path) {
                    None
                } else {
                    Some(to)
                }
            },
        }
    }
}

/// `sel` with every path equal to `from` replaced by `to`.
pub open spec fn renamed_in(sel: Seq<Seq<char>>, from: Seq<char>, to: Seq<char>) -> Seq<Seq<char>> {
    sel.map_values(|p: Seq<char>| if same_path(p, from) {
        to
    } else {
        p
    })
}

/// Items a finished transfer reports as pasted: the larger of done and total, at least one.
pub open spec fn pasted_count(done: nat, total: nat) -> nat {
    let m = if done > total {
        done
    } else {
        total
    };
    if m < 1 {
        1
    } else {
        m
    }
}

/// Tree and cache after asking for the children of `p`: taken from its listing once
/// complete, the listing requested when there is none.
pub open spec fn populated(t: TreeView, c: FsCacheView, p: Seq<char>) -> (TreeView, FsCacheView) {
    match lookup(c.listings, p) {
        Some(l) => (if l.complete {
            edit_view(t, p, TreeEdit::Load, dir_leaves(l.entries)).0
        } else {
            t
        }, c),
        None => (t, requested(c, p)),
    }
}

/// Populates each location from `current` down `rest` (skipping `..`), stopping at `target`.
pub open spec fn walk_populate(
    t: TreeView,
    c: FsCacheView,
    current: Seq<char>,
    rest: Seq<Seq<char>>,
    target: Seq<char>,
) -> (TreeView, FsCacheView)
    decreases rest.len(),
{
    if rest.len() == 0 {
        (t, c)
    } else if rest[0] == seq!['.', '.'] {
        walk_populate(t, c, current, rest.drop_first(), target)
    } else {
        let next = crate::paths::join_of(current, rest[0]);
        let (t2, c2) = populated(t, c, next);
        if same_path(next, target) {
            (t2, c2)
        } else {
            walk_populate(t2, c2, next, rest.drop_first(), target)
        }
    }
}

/// Tree and cache after loading the way from the tree's root down to `target`.
pub open spec fn tree_path_loaded(t: TreeView, c: FsCacheView, target: Seq<char>) -> (TreeView, FsCacheView) {
    let root = t.path;
    if !path_prefix(root, target) {
        (t, c)
    } else {
        let (t1, c1) = populated(t, c, root);
        if same_path(target, root) {
            (t1, c1)
        } else {
            walk_populate(
                t1,
                c1,
                root,
                crate::paths::path_parts(target).skip(crate::paths::path_parts(root).len() as int),
                target,
            )
        }
    }
}

/// `ps` joined by newlines.
pub open spec fn lines_text(ps: Seq<Seq<char>>) -> Seq<char> {
    crate::clipboard::join_with(ps, "\n"@)
}

fn join_lines(ps: &Vec<String>) -> (r: String)
    ensures
        r@ == lines_text(ps.deep_view()),
{
    let ghost v = ps.deep_view();
    let mut out: Vec<char> = Vec::new();
    let mut i: usize = 0;
    assert(v.take(0) =~= Seq::<Seq<char>>::empty());
    while i < ps.len()
        invariant
            i <= ps.len(),
            v == ps.deep_view(),
            out@ == crate::clipboard::join_with(v.take(i as int), "\n"@),
        decreases ps.len() - i,
    {
        assert(v.take(i + 1).drop_last() =~= v.take(i as int));
        assert(v.take(i + 1).last() == ps@[i as int]@);
        if i > 0 {
            append_str(&mut out, "\n");
        }
        append_str(&mut out, ps[i].as_str());
        proof {
            if i == 0 {
                assert(v.take(1) =~= seq![v[0]]);
                assert(out@ =~= v[0]);
            }
        }
        i = i + 1;
    }
    assert(v.take(i as int) =~= v);
    string_from_chars(&out)
}

/// The selection put on the explorer's clipboard in `mode`, `verb` naming it in the toast:
/// with nothing selected nothing changes and there is no result; else the result is the
/// selection, the clipboard holds it, pasting is possible, and all else stays.
pub open spec fn clipped(
    a: ExplorerState,
    b: ExplorerState,
    mode: ClipboardMode,
    verb: Seq<char>,
    r: Option<Vec<String>>,
) -> bool {
    if a.view_options.selected.len() == 0 {
        r is None && b == a
    } else {
        &&& r matches Some(ps) && ps.deep_view() == a.view_options.selected.deep_view()
        &&& internal_view(b.view_options.clipboard) == Some((mode, a.view_options.selected.deep_view()))
        &&& b.view_options.selected == a.view_options.selected
        &&& b.view_options.renaming == a.view_options.renaming
        &&& b.view_options.view_mode == a.view_options.view_mode
        &&& b.view_options.sort_field == a.view_options.sort_field
        &&& b.view_options.sort_order == a.view_options.sort_order
        &&& b.view_options.show_hidden_files == a.view_options.show_hidden_files
        &&& b.view_options.show_file_extensions == a.view_options.show_file_extensions
        &&& b.clipboard_paste_available
        &&& b.quick_toast matches Some(t) && t@ == items_message(verb, a.view_options.selected.len() as nat)
        &&& b.tabs == a.tabs
        &&& b.active_tab == a.active_tab
        &&& b.next_tab_id == a.next_tab_id
        &&& b.fs_cache == a.fs_cache
        &&& b.file_tree == a.file_tree
        &&& b.transfer == a.transfer
        &&& b.thumbnails == a.thumbnails
        &&& b.path_bar_edit == a.path_bar_edit
        &&& b.properties_dialog == a.properties_dialog
        &&& settings_same(b, a)
    }
}

impl ExplorerState {
    /// A window with one tab at `initial`, the tree rooted at `home`, and the view set up from
    /// `preferences`; the listing of `initial` is requested.
    pub fn new_at_path(initial: String, home: &str, preferences: &Preferences) -> (r: ExplorerState)
        ensures
            explorer_wf(r),
            r.tabs.len() == 1,
            r.active_tab == 0,
            r.tabs@[0]@ == (TabView { id: 0, current: initial@, back: Seq::empty(), forward: Seq::empty() }),
            r.next_tab_id == 1,
            lookup(r.fs_cache@.listings, initial@) == Some(
                crate::listing::ListingView { entries: Seq::empty(), complete: false },
            ),
            r.fs_cache@.pending == seq![initial@],
            prefs_of(r.view_options) == *preferences,
            r.view_options.sort_field == crate::entries::SortField::Name,
            r.view_options.sort_order == crate::entries::SortOrder::Ascending,
            tree_view(r.file_tree) == crate::tree::root_view(home@),
            crate::transfer::idle_manager(r.transfer),
            r.thumbnails@ == crate::thumbs::reset_view(None, 0),
            !r.clipboard_paste_available,
            !r.settings_ignore_next_outside_click,
            r.view_options.selected@.len() == 0,
            r.view_options.renaming is None,
            r.view_options.clipboard is None,
            r.path_bar_edit is None,
            r.quick_toast is None,
            r.properties_dialog is None,
            r.theme_preset == ThemePreset::GlassSquid,
            forall|a: KeybindAction| #[trigger] binding_in(r.keybinds, a) == default_binding_of(a),
            !r.settings_dialog_open,
            r.settings_tab == SettingsTab::Themes,
            r.capturing_keybind_action is None,
    {
        let mut view_options = FileViewOptions::new();
        preferences.apply_to(&mut view_options);
        let mut fs_cache = FsCache::new();
        let first = copy_string(&initial);
        let mut tabs: Vec<ExplorerTab> = Vec::new();
        tabs.push(ExplorerTab::new(0, initial));
        fs_cache.request_listing(first);
        proof {
            assert(crate::view::first_match(Seq::<Seq<char>>::empty(), first@) == -1);
            assert(!crate::view::selection_has(Seq::<Seq<char>>::empty(), first@));
            assert(crate::listing::listing_keys(Seq::empty()) =~= Seq::<Seq<char>>::empty());
        }
        assert(fs_cache@.pending =~= seq![first@]);
        ExplorerState {
            tabs,
            active_tab: 0,
            next_tab_id: 1,
            fs_cache,
            file_tree: TreeNode::root(home),
            view_options,
            transfer: TransferManager::new(),
            thumbnails: ThumbnailScheduler::new(),
            clipboard_paste_available: false,
            path_bar_edit: None,
            quick_toast: None,
            properties_dialog: None,
            theme_preset: ThemePreset::GlassSquid,
            keybinds: KeybindSettings::defaults(),
            settings_dialog_open: false,
            settings_ignore_next_outside_click: false,
            settings_tab: SettingsTab::Themes,
            capturing_keybind_action: None,
        }
    }

    pub fn theme_preset(&self) -> (r: ThemePreset)
        ensures
            r == self.theme_preset,
    {
        self.theme_preset
    }

    /// Switches the theme; `true` when it changed, and the preferences are then to be saved.
    pub fn set_theme_preset(&mut self, theme: ThemePreset) -> (changed: bool)
        ensures
            changed == (theme != old(self).theme_preset),
            final(self).theme_preset == theme,
            content_same(*final(self), *old(self)),
            dialogs_same(*final(self), *old(self)),
            final(self).keybinds == old(self).keybinds,
            final(self).settings_dialog_open == old(self).settings_dialog_open,
            final(self).settings_ignore_next_outside_click == old(self).settings_ignore_next_outside_click,
            final(self).settings_tab == old(self).settings_tab,
            final(self).capturing_keybind_action == old(self).capturing_keybind_action,
    {
        if self.theme_preset != theme {
            self.theme_preset = theme;
            true
        } else {
            false
        }
    }

    pub fn keybind_for(&self, action: KeybindAction) -> (r: Option<Keybind>)
        ensures
            r == binding_in(self.keybinds, action),
    {
        self.keybinds.get(action)
    }

    /// The binding of `action` as text, or `Unassigned`.
    pub fn keybind_label(&self, action: KeybindAction) -> (r: String)
        ensures
            r@ == match binding_in(self.keybinds, action) {
                Some(k) => keybind_label(k),
                None => "Unassigned"@,
            },
    {
        match self.keybind_for(action) {
            Some(k) => k.label(),
            None => string_from_chars(&chars_of("Unassigned")),
        }
    }

    /// Binds `action` to `binding`; the preferences are then to be saved.
    pub fn set_keybind(&mut self, action: KeybindAction, binding: Option<Keybind>)
        ensures
            binding_in(final(self).keybinds, action) == binding,
            forall|other: KeybindAction| other != action ==> #[trigger] binding_in(final(self).keybinds, other)
                == binding_in(old(self).keybinds, other),
            content_same(*final(self), *old(self)),
            dialogs_same(*final(self), *old(self)),
            final(self).theme_preset == old(self).theme_preset,
            final(self).settings_dialog_open == old(self).settings_dialog_open,
            final(self).settings_ignore_next_outside_click == old(self).settings_ignore_next_outside_click,
            final(self).settings_tab == old(self).settings_tab,
            final(self).capturing_keybind_action == old(self).capturing_keybind_action,
    {
        self.keybinds.set(action, binding);
    }

    /// Gives `action` its out-of-the-box binding again.
    pub fn reset_keybind_to_default(&mut self, action: KeybindAction)
        ensures
            binding_in(final(self).keybinds, action) == default_binding_of(action),
            forall|other: KeybindAction| other != action ==> #[trigger] binding_in(final(self).keybinds, other)
                == binding_in(old(self).keybinds, other),
            content_same(*final(self), *old(self)),
            dialogs_same(*final(self), *old(self)),
            final(self).theme_preset == old(self).theme_preset,
            final(self).settings_dialog_open == old(self).settings_dialog_open,
            final(self).settings_ignore_next_outside_click == old(self).settings_ignore_next_outside_click,
            final(self).settings_tab == old(self).settings_tab,
            final(self).capturing_keybind_action == old(self).capturing_keybind_action,
    {
        self.set_keybind(action, action.default_binding());
    }

    /// One frame of the keybinding settings: a key combination `captured` while an action
    /// awaits its keys binds that action and ends the capture; clicking an action's binding
    /// (`start`) makes it await its keys; `clear` unbinds an action and `reset` gives it its
    /// default binding, either ending the capture when it was that action's. The capture
    /// taken in is the one that was under way before the clicks of the frame.
    pub fn keybind_settings_step(
        &mut self,
        captured: Option<Keybind>,
        start: Option<KeybindAction>,
        clear: Option<KeybindAction>,
        reset: Option<KeybindAction>,
    )
        ensures
            ({
                let cap0 = old(self).capturing_keybind_action;
                let kb1 = match clear {
                    Some(a) => crate::settings::with_binding(old(self).keybinds, a, None),
                    None => old(self).keybinds,
                };
                let kb2 = match reset {
                    Some(a) => crate::settings::with_binding(kb1, a, default_binding_of(a)),
                    None => kb1,
                };
                let c1 = match start {
                    Some(a) => Some(a),
                    None => cap0,
                };
                let c2 = match clear {
                    Some(a) if c1 == Some(a) => None,
                    _ => c1,
                };
                let c3 = match reset {
                    Some(a) if c2 == Some(a) => None,
                    _ => c2,
                };
                match (cap0, captured) {
                    (Some(a), Some(b)) => {
                        &&& final(self).keybinds == crate::settings::with_binding(kb2, a, Some(b))
                        &&& final(self).capturing_keybind_action is None
                    },
                    _ => {
                        &&& final(self).keybinds == kb2
                        &&& final(self).capturing_keybind_action == c3
                    },
                }
            }),
            content_same(*final(self), *old(self)),
            dialogs_same(*final(self), *old(self)),
            final(self).theme_preset == old(self).theme_preset,
            final(self).settings_dialog_open == old(self).settings_dialog_open,
            final(self).settings_ignore_next_outside_click == old(self).settings_ignore_next_outside_click,
            final(self).settings_tab == old(self).settings_tab,
    {
        let awaiting = self.capturing_keybind_action;
        if let Some(a) = start {
            self.capturing_keybind_action = Some(a);
        }
        if let Some(a) = clear {
            self.keybinds.set(a, None);
            if self.capturing_keybind_action == Some(a) {
                self.capturing_keybind_action = None;
            }
        }
        if let Some(a) = reset {
            self.keybinds.set(a, a.default_binding());
            if self.capturing_keybind_action == Some(a) {
                self.capturing_keybind_action = None;
            }
        }
        match (awaiting, captured) {
            (Some(a), Some(b)) => {
                self.keybinds.set(a, Some(b));
                self.capturing_keybind_action = None;
            },
            _ => {},
        }
    }

    pub fn keybind_is_default(&self, action: KeybindAction) -> (r: bool)
        ensures
            r == (binding_in(self.keybinds, action) == default_binding_of(action)),
    {
        self.keybinds.is_default_binding(action)
    }

    /// Opens the settings dialog (ignoring the click that opened it) or closes it (ending any
    /// key capture).
    pub fn toggle_settings_dialog(&mut self)
        ensures
            final(self).settings_dialog_open == !old(self).settings_dialog_open,
            final(self).settings_ignore_next_outside_click == final(self).settings_dialog_open,
            final(self).capturing_keybind_action == (if final(self).settings_dialog_open {
                old(self).capturing_keybind_action
            } else {
                None
            }),
            content_same(*final(self), *old(self)),
            dialogs_same(*final(self), *old(self)),
            final(self).theme_preset == old(self).theme_preset,
            final(self).keybinds == old(self).keybinds,
            final(self).settings_tab == old(self).settings_tab,
    {
        self.settings_dialog_open = !self.settings_dialog_open;
        if self.settings_dialog_open {
            self.settings_ignore_next_outside_click = true;
        } else {
            self.settings_ignore_next_outside_click = false;
            self.capturing_keybind_action = None;
        }
    }

    pub fn close_settings_dialog(&mut self)
        ensures
            !final(self).settings_dialog_open,
            !final(self).settings_ignore_next_outside_click,
            final(self).capturing_keybind_action is None,
            content_same(*final(self), *old(self)),
            dialogs_same(*final(self), *old(self)),
            final(self).theme_preset == old(self).theme_preset,
            final(self).keybinds == old(self).keybinds,
            final(self).settings_tab == old(self).settings_tab,
    {
        self.settings_dialog_open = false;
        self.settings_ignore_next_outside_click = false;
        self.capturing_keybind_action = None;
    }

    /// The tab being shown.
    pub fn active_tab(&self) -> (r: &ExplorerTab)
        requires
            explorer_wf(*self),
        ensures
            *r == self.tabs@[self.active_tab as int],
    {
        &self.tabs[self.active_tab]
    }

    /// Location of the tab being shown.
    pub fn active_path(&self) -> (r: String)
        requires
            explorer_wf(*self),
        ensures
            r@ == active_location(*self),
    {
        copy_string(&self.tabs[self.active_tab].current)
    }

    /// Asks for the listing of `path`; `true` when a worker is to start for it.
    pub fn ensure_listing(&mut self, path: String) -> (start: bool)
        ensures
            explorer_wf(*old(self)) ==> explorer_wf(*final(self)),
            final(self).fs_cache@ == requested(old(self).fs_cache@, path@),
            start == (!(lookup(old(self).fs_cache@.listings, path@) matches Some(l) && l.complete)
                && !crate::view::selection_has(old(self).fs_cache@.pending, path@)),
            final(self).tabs == old(self).tabs,
            final(self).active_tab == old(self).active_tab,
            final(self).next_tab_id == old(self).next_tab_id,
            final(self).file_tree == old(self).file_tree,
            final(self).view_options == old(self).view_options,
            final(self).transfer == old(self).transfer,
            final(self).thumbnails == old(self).thumbnails,
            dialogs_same(*final(self), *old(self)),
            settings_same(*final(self), *old(self)),
            final(self).clipboard_paste_available == old(self).clipboard_paste_available,
    {
        let start = self.fs_cache.request_listing(path);
        start
    }

    /// Opens a tab at `home` and shows it; its listing is requested.
    pub fn new_tab(&mut self, home: String)
        requires
            old(self).next_tab_id < u64::MAX,
        ensures
            explorer_wf(*old(self)) ==> explorer_wf(*final(self)),
            tab_views(final(self).tabs@) == tab_views(old(self).tabs@).push(
                TabView { id: old(self).next_tab_id, current: home@, back: Seq::empty(), forward: Seq::empty() },
            ),
            final(self).active_tab == old(self).tabs.len(),
            final(self).next_tab_id == old(self).next_tab_id + 1,
            final(self).fs_cache@ == requested(old(self).fs_cache@, home@),
            final(self).view_options == old(self).view_options,
            final(self).thumbnails == old(self).thumbnails,
            final(self).path_bar_edit == old(self).path_bar_edit,
            rest_same(*final(self), *old(self)),
    {
        let ghost s0 = *self;
        let id = self.next_tab_id;
        self.next_tab_id = self.next_tab_id + 1;
        let listing_path = copy_string(&home);
        let ghost before = self.tabs@;
        self.tabs.push(ExplorerTab::new(id, home));
        assert(tab_views(self.tabs@) =~= tab_views(before).push(self.tabs@[before.len() as int]@));
        self.active_tab = self.tabs.len() - 1;
        self.fs_cache.request_listing(listing_path);
        proof {
            if explorer_wf(s0) {
                assert forall|i: int| 0 <= i < self.tabs.len() implies (#[trigger] self.tabs@[i]).id < self.next_tab_id by {
                    if i < before.len() {
                        assert(self.tabs@[i] == before[i]);
                    }
                }
            }
        }
    }

    /// Closes tab `index` unless it is the last tab or there is no such tab; the active tab
    /// stays the one shown where it can.
    pub fn close_tab(&mut self, index: usize)
        ensures
            explorer_wf(*old(self)) ==> explorer_wf(*final(self)),
            old(self).tabs.len() == 1 || index >= old(self).tabs.len() ==> *final(self) == *old(self),
            !(old(self).tabs.len() == 1 || index >= old(self).tabs.len()) ==> {
                &&& final(self).tabs@ == old(self).tabs@.remove(index as int)
                &&& final(self).active_tab == active_after_close(
                    old(self).active_tab as int,
                    index as int,
                    old(self).tabs.len() as int,
                )
                &&& final(self).path_bar_edit is None
                &&& final(self).next_tab_id == old(self).next_tab_id
                &&& final(self).fs_cache == old(self).fs_cache
                &&& final(self).view_options == old(self).view_options
                &&& final(self).thumbnails == old(self).thumbnails
                &&& rest_same(*final(self), *old(self))
            },
    {
        if self.tabs.len() == 1 {
            return;
        }
        if index >= self.tabs.len() {
            return;
        }
        let ghost before = self.tabs@;
        let ghost s0 = *self;
        self.tabs.remove(index);
        self.path_bar_edit = None;
        if self.active_tab >= self.tabs.len() {
            self.active_tab = self.tabs.len() - 1;
        } else if index < self.active_tab {
            self.active_tab = self.active_tab - 1;
        }
        proof {
            if explorer_wf(s0) {
                assert forall|i: int| 0 <= i < self.tabs.len() implies (#[trigger] self.tabs@[i]).id < self.next_tab_id by {
                    if i < index {
                        assert(self.tabs@[i] == before[i]);
                    } else {
                        assert(self.tabs@[i] == before[i + 1]);
                    }
                }
            }
        }
    }

    /// Closes the tab with id `tab_id`, if any, unless it is the last tab.
    pub fn close_tab_by_id(&mut self, tab_id: u64)
        ensures
            explorer_wf(*old(self)) ==> explorer_wf(*final(self)),
            ({
                let k = tab_index_of(old(self).tabs@, tab_id);
                if old(self).tabs.len() == 1 || k < 0 {
                    *final(self) == *old(self)
                } else {
                    &&& final(self).tabs@ == old(self).tabs@.remove(k)
                    &&& final(self).active_tab == active_after_close(old(self).active_tab as int, k, old(self).tabs.len() as int)
                    &&& final(self).path_bar_edit is None
                    &&& final(self).next_tab_id == old(self).next_tab_id
                    &&& final(self).fs_cache == old(self).fs_cache
                    &&& final(self).view_options == old(self).view_options
                    &&& final(self).thumbnails == old(self).thumbnails
                    &&& rest_same(*final(self), *old(self))
                }
            }),
    {
        if self.tabs.len() == 1 {
            return;
        }
        proof {
            lemma_tab_index(self.tabs@, tab_id);
        }
        match tab_position(&self.tabs, tab_id) {
            Some(index) => self.close_tab(index),
            None => {},
        }
    }

    /// Shows tab `index`, if there is one: the view leaves its directory and the tab's listing
    /// is requested.
    pub fn set_active_tab(&mut self, index: usize)
        ensures
            explorer_wf(*old(self)) ==> explorer_wf(*final(self)),
            index >= old(self).tabs.len() ==> *final(self) == *old(self),
            index < old(self).tabs.len() ==> {
                &&& final(self).active_tab == index
                &&& final(self).tabs == old(self).tabs
                &&& final(self).next_tab_id == old(self).next_tab_id
                &&& final(self).path_bar_edit is None
                &&& left_directory(*final(self), *old(self))
                &&& final(self).fs_cache@ == requested(old(self).fs_cache@, old(self).tabs@[index as int]@.current)
                &&& rest_same(*final(self), *old(self))
            },
    {
        if index < self.tabs.len() {
            self.path_bar_edit = None;
            self.active_tab = index;
            self.view_options.on_directory_changed();
            self.thumbnails.on_directory_changing();
            let path = copy_string(&self.tabs[index].current);
            self.fs_cache.request_listing(path);
        }
    }

    /// Shows the tab with id `tab_id`, if any.
    pub fn set_active_tab_by_id(&mut self, tab_id: u64)
        ensures
            explorer_wf(*old(self)) ==> explorer_wf(*final(self)),
            ({
                let k = tab_index_of(old(self).tabs@, tab_id);
                if k < 0 {
                    *final(self) == *old(self)
                } else {
                    &&& final(self).active_tab == k
                    &&& final(self).tabs == old(self).tabs
                    &&& final(self).next_tab_id == old(self).next_tab_id
                    &&& final(self).path_bar_edit is None
                    &&& left_directory(*final(self), *old(self))
                    &&& final(self).fs_cache@ == requested(old(self).fs_cache@, old(self).tabs@[k]@.current)
                    &&& rest_same(*final(self), *old(self))
                }
            }),
    {
        proof {
            lemma_tab_index(self.tabs@, tab_id);
        }
        match tab_position(&self.tabs, tab_id) {
            Some(index) => self.set_active_tab(index),
            None => {},
        }
    }

    /// Reacts to the active tab having moved (when `moved`): the view leaves its directory and
    /// the new location's listing is requested.
    fn after_tab_moved(&mut self, moved: bool)
        requires
            old(self).active_tab < old(self).tabs.len(),
        ensures
            final(self).tabs == old(self).tabs,
            final(self).active_tab == old(self).active_tab,
            final(self).next_tab_id == old(self).next_tab_id,
            final(self).path_bar_edit == old(self).path_bar_edit,
            rest_same(*final(self), *old(self)),
            !moved ==> *final(self) == *old(self),
            moved ==> left_directory(*final(self), *old(self)) && final(self).fs_cache@ == requested(
                old(self).fs_cache@,
                active_location(*old(self)),
            ),
            cache_wf(old(self).fs_cache@) ==> cache_wf(final(self).fs_cache@),
    {
        if moved {
            self.view_options.on_directory_changed();
            self.thumbnails.on_directory_changing();
            let path = copy_string(&self.tabs[self.active_tab].current);
            self.fs_cache.request_listing(path);
        }
    }

    /// Goes back in the active tab's history, if it can.
    pub fn go_back(&mut self)
        requires
            explorer_wf(*old(self)),
        ensures
            explorer_wf(*final(self)),
            final(self).path_bar_edit is None,
            final(self).active_tab == old(self).active_tab,
            final(self).next_tab_id == old(self).next_tab_id,
            rest_same(*final(self), *old(self)),
            ({
                let i = old(self).active_tab as int;
                let t = old(self).tabs@[i]@;
                if t.back.len() > 0 {
                    &&& tab_views(final(self).tabs@) == tab_views(old(self).tabs@).update(i, went_back(t))
                    &&& left_directory(*final(self), *old(self))
                    &&& final(self).fs_cache@ == requested(old(self).fs_cache@, went_back(t).current)
                } else {
                    &&& final(self).tabs@ == old(self).tabs@
                    &&& final(self).view_options == old(self).view_options
                    &&& final(self).thumbnails == old(self).thumbnails
                    &&& final(self).fs_cache == old(self).fs_cache
                }
            }),
    {
        self.path_bar_edit = None;
        let i = self.active_tab;
        let ghost before = self.tabs@;
        let mut tab = self.tabs.remove(i);
        let moved = tab.go_back();
        self.tabs.insert(i, tab);
        proof {
            self.lemma_tab_replaced(before, i as int);
        }
        if !moved {
            assert(self.tabs@ =~= before);
        }
        self.after_tab_moved(moved);
    }

    /// Goes forward in the active tab's history, if it can.
    pub fn go_forward(&mut self)
        requires
            explorer_wf(*old(self)),
        ensures
            explorer_wf(*final(self)),
            final(self).path_bar_edit is None,
            final(self).active_tab == old(self).active_tab,
            final(self).next_tab_id == old(self).next_tab_id,
            rest_same(*final(self), *old(self)),
            ({
                let i = old(self).active_tab as int;
                let t = old(self).tabs@[i]@;
                if t.forward.len() > 0 {
                    &&& tab_views(final(self).tabs@) == tab_views(old(self).tabs@).update(i, went_forward(t))
                    &&& left_directory(*final(self), *old(self))
                    &&& final(self).fs_cache@ == requested(old(self).fs_cache@, went_forward(t).current)
                } else {
                    &&& final(self).tabs@ == old(self).tabs@
                    &&& final(self).view_options == old(self).view_options
                    &&& final(self).thumbnails == old(self).thumbnails
                    &&& final(self).fs_cache == old(self).fs_cache
                }
            }),
    {
        self.path_bar_edit = None;
        let i = self.active_tab;
        let ghost before = self.tabs@;
        let mut tab = self.tabs.remove(i);
        let moved = tab.go_forward();
        self.tabs.insert(i, tab);
        proof {
            self.lemma_tab_replaced(before, i as int);
        }
        if !moved {
            assert(self.tabs@ =~= before);
        }
        self.after_tab_moved(moved);
    }

    /// Goes to the parent of the active tab's location, if it has one.
    pub fn go_up(&mut self)
        requires
            explorer_wf(*old(self)),
        ensures
            explorer_wf(*final(self)),
            final(self).path_bar_edit is None,
            final(self).active_tab == old(self).active_tab,
            final(self).next_tab_id == old(self).next_tab_id,
            rest_same(*final(self), *old(self)),
            ({
                let i = old(self).active_tab as int;
                let t = old(self).tabs@[i]@;
                match crate::paths::parent_of(t.current) {
                    Some(p) => {
                        &&& tab_views(final(self).tabs@) == tab_views(old(self).tabs@).update(i, navigated(t, p))
                        &&& left_directory(*final(self), *old(self))
                        &&& final(self).fs_cache@ == requested(old(self).fs_cache@, navigated(t, p).current)
                    },
                    None => {
                        &&& final(self).tabs@ == old(self).tabs@
                        &&& final(self).view_options == old(self).view_options
                        &&& final(self).thumbnails == old(self).thumbnails
                        &&& final(self).fs_cache == old(self).fs_cache
                    },
                }
            }),
    {
        self.path_bar_edit = None;
        let i = self.active_tab;
        let ghost before = self.tabs@;
        let mut tab = self.tabs.remove(i);
        let moved = tab.go_up();
        self.tabs.insert(i, tab);
        proof {
            self.lemma_tab_replaced(before, i as int);
        }
        if !moved {
            assert(self.tabs@ =~= before);
        }
        self.after_tab_moved(moved);
    }

    /// Facts about putting a changed tab back at `i` in place of the old one.
    proof fn lemma_tab_replaced(&self, before: Seq<ExplorerTab>, i: int)
        requires
            0 <= i < before.len(),
            self.tabs@.len() == before.len(),
            forall|k: int| 0 <= k < before.len() && k != i ==> #[trigger] self.tabs@[k] == before[k],
            self.tabs@[i].id == before[i].id,
        ensures
            tab_views(self.tabs@) == tab_views(before).update(i, self.tabs@[i]@),
            forall|k: int| 0 <= k < self.tabs.len() ==> (#[trigger] self.tabs@[k]).id == before[k].id,
    {
        assert(tab_views(self.tabs@) =~= tab_views(before).update(i, self.tabs@[i]@));
        assert forall|k: int| 0 <= k < self.tabs.len() implies (#[trigger] self.tabs@[k]).id == before[k].id by {
            if k != i {
                assert(self.tabs@[k] == before[k]);
            }
        }
    }

    /// Reloads the active tab's location: its listing is dropped and requested again.
    pub fn refresh_active(&mut self)
        requires
            explorer_wf(*old(self)),
        ensures
            explorer_wf(*final(self)),
            final(self).fs_cache@ == requested(invalidated(old(self).fs_cache@, active_location(*old(self))), active_location(*old(self))),
            final(self).thumbnails@ == crate::thumbs::reset_view(None, crate::thumbs::next_generation(old(self).thumbnails@.generation)),
            final(self).tabs == old(self).tabs,
            final(self).active_tab == old(self).active_tab,
            final(self).next_tab_id == old(self).next_tab_id,
            final(self).view_options == old(self).view_options,
            final(self).path_bar_edit == old(self).path_bar_edit,
            rest_same(*final(self), *old(self)),
    {
        let i = self.active_tab;
        let path = copy_string(&self.tabs[i].current);
        self.thumbnails.on_directory_changing();
        self.fs_cache.invalidate(path.as_str());
        self.fs_cache.request_listing(path);
    }

    /// Goes to `path` in the active tab when it is a directory (`is_dir`); `false` for a file,
    /// which the caller opens instead. The path bar closes either way.
    pub fn navigate_active(&mut self, path: String, is_dir: bool) -> (shown: bool)
        requires
            explorer_wf(*old(self)),
        ensures
            explorer_wf(*final(self)),
            shown == is_dir,
            final(self).path_bar_edit is None,
            final(self).active_tab == old(self).active_tab,
            final(self).next_tab_id == old(self).next_tab_id,
            rest_same(*final(self), *old(self)),
            !is_dir ==> {
                &&& final(self).tabs == old(self).tabs
                &&& final(self).view_options == old(self).view_options
                &&& final(self).thumbnails == old(self).thumbnails
                &&& final(self).fs_cache == old(self).fs_cache
            },
            is_dir ==> {
                let i = old(self).active_tab as int;
                &&& tab_views(final(self).tabs@) == tab_views(old(self).tabs@).update(i, navigated(old(self).tabs@[i]@, path@))
                &&& left_directory(*final(self), *old(self))
                &&& final(self).fs_cache@ == requested(old(self).fs_cache@, path@)
            },
    {
        self.path_bar_edit = None;
        if !is_dir {
            return false;
        }
        self.view_options.on_directory_changed();
        self.thumbnails.on_directory_changing();
        let i = self.active_tab;
        let ghost before = self.tabs@;
        let listing_path = copy_string(&path);
        let mut tab = self.tabs.remove(i);
        tab.navigate(path);
        self.tabs.insert(i, tab);
        proof {
            self.lemma_tab_replaced(before, i as int);
        }
        self.fs_cache.request_listing(listing_path);
        true
    }

    /// Starts editing the path bar with the active location; a rename under way ends.
    pub fn start_path_bar_edit(&mut self)
        requires
            explorer_wf(*old(self)),
        ensures
            explorer_wf(*final(self)),
            final(self).path_bar_edit matches Some(e) && e.text@ == active_location(*old(self))
                && e.revert_path@ == active_location(*old(self)) && e.completion_index == 0,
            final(self).view_options.renaming is None,
            final(self).view_options.selected@ == old(self).view_options.selected@,
            crate::selection::settings_kept(final(self).view_options, old(self).view_options),
            final(self).tabs == old(self).tabs,
            final(self).active_tab == old(self).active_tab,
            final(self).fs_cache == old(self).fs_cache,
            final(self).thumbnails == old(self).thumbnails,
            rest_same(*final(self), *old(self)),
            final(self).next_tab_id == old(self).next_tab_id,
    {
        let path = self.active_path();
        let text = copy_string(&path);
        self.view_options.cancel_rename();
        self.path_bar_edit = Some(PathBarEditState { text, revert_path: path, completion_index: 0 });
    }

    pub fn cancel_path_bar_edit(&mut self)
        ensures
            final(self).path_bar_edit is None,
            content_same(*final(self), *old(self)),
            final(self).quick_toast == old(self).quick_toast,
            final(self).properties_dialog == old(self).properties_dialog,
            settings_same(*final(self), *old(self)),
    {
        self.path_bar_edit = None;
    }

    /// Ends the path bar edit; `resolved` is the directory its text names, as the caller
    /// resolved it against the location the edit started from. The active tab goes there
    /// when it is somewhere else.
    pub fn commit_path_bar_edit(&mut self, resolved: Option<String>)
        requires
            explorer_wf(*old(self)),
        ensures
            explorer_wf(*final(self)),
            final(self).path_bar_edit is None,
            rest_same(*final(self), *old(self)),
            final(self).active_tab == old(self).active_tab,
            ({
                let go = old(self).path_bar_edit is Some && (resolved matches Some(p) && !same_path(
                    p@,
                    active_location(*old(self)),
                ));
                if go {
                    let i = old(self).active_tab as int;
                    &&& tab_views(final(self).tabs@) == tab_views(old(self).tabs@).update(
                        i,
                        navigated(old(self).tabs@[i]@, resolved->0@),
                    )
                    &&& left_directory(*final(self), *old(self))
                    &&& final(self).fs_cache@ == requested(old(self).fs_cache@, resolved->0@)
                } else {
                    &&& final(self).tabs == old(self).tabs
                    &&& final(self).view_options == old(self).view_options
                    &&& final(self).thumbnails == old(self).thumbnails
                    &&& final(self).fs_cache == old(self).fs_cache
                }
            }),
            final(self).next_tab_id == old(self).next_tab_id,
    {
        if self.path_bar_edit.is_none() {
            return;
        }
        self.path_bar_edit = None;
        match resolved {
            Some(p) => {
                let here = &self.tabs[self.active_tab].current;
                if !paths_equal(p.as_str(), here.as_str()) {
                    self.navigate_active(p, true);
                }
            },
            None => {},
        }
    }

    /// Shows `message` in the toast.
    pub fn show_quick_toast(&mut self, message: String)
        ensures
            final(self).quick_toast == Some(message),
            content_same(*final(self), *old(self)),
            final(self).path_bar_edit == old(self).path_bar_edit,
            final(self).properties_dialog == old(self).properties_dialog,
            settings_same(*final(self), *old(self)),
    {
        self.quick_toast = Some(message);
    }

    /// Puts the selection on the explorer's clipboard as `mode`; the paths, which the caller
    /// also puts on the system clipboard, or `None` when nothing is selected.
    fn clip_selection(&mut self, mode: ClipboardMode, verb: &str) -> (r: Option<Vec<String>>)
        ensures
            clipped(*old(self), *final(self), mode, verb@, r),
    {
        if self.view_options.selected.len() == 0 {
            return None;
        }
        let paths = copy_strings(&self.view_options.selected);
        assert(paths.deep_view().len() == paths@.len());
        assert(self.view_options.selected.deep_view().len() == self.view_options.selected@.len());
        let item_count = paths.len();
        self.view_options.clipboard = Some((mode, copy_strings(&paths)));
        self.clipboard_paste_available = true;
        self.quick_toast = Some(items_toast(verb, item_count));
        Some(paths)
    }

    /// Copies the selection: the paths to put on the system clipboard for copying.
    pub fn copy_selection(&mut self) -> (r: Option<Vec<String>>)
        ensures
            clipped(*old(self), *final(self), ClipboardMode::Copy, "Copied"@, r),
    {
        self.clip_selection(ClipboardMode::Copy, "Copied")
    }

    /// Cuts the selection: the paths to put on the system clipboard for moving.
    pub fn cut_selection(&mut self) -> (r: Option<Vec<String>>)
        ensures
            clipped(*old(self), *final(self), ClipboardMode::Cut, "Moving"@, r),
    {
        self.clip_selection(ClipboardMode::Cut, "Moving")
    }

    /// Pastes into the active location: from the system clipboard (`system`, as the caller read
    /// it) when it holds paths, else from the explorer's own clipboard. Nothing while a
    /// transfer runs. The paths and mode of the transfer started, whose workers the caller runs.
    pub fn paste_clipboard(&mut self, system: Option<(Vec<String>, ClipboardOp)>) -> (r: Option<(Vec<String>, TransferMode)>)
        ensures
            ({
                let src = paste_source(system_view(system), internal_view(old(self).view_options.clipboard));
                if old(self).transfer.progress.active || src is None {
                    r is None && *final(self) == *old(self)
                } else {
                    &&& r matches Some((ps, m)) && (ps.deep_view(), m) == src->0
                    &&& final(self).transfer@ == crate::transfer::started_view(old(self).transfer@, (src->0).1)
                    &&& final(self).tabs == old(self).tabs
                    &&& final(self).fs_cache == old(self).fs_cache
                    &&& final(self).view_options == old(self).view_options
                    &&& final(self).thumbnails == old(self).thumbnails
                    &&& dialogs_same(*final(self), *old(self))
                    &&& settings_same(*final(self), *old(self))
                }
            }),
    {
        if self.transfer.is_active() {
            return None;
        }
        let chosen: Option<(Vec<String>, TransferMode)> = match system {
            Some((ps, op)) if ps.len() > 0 => Some((ps, match op {
                ClipboardOp::Copy => TransferMode::Copy,
                ClipboardOp::Move => TransferMode::Move,
            })),
            _ => match &self.view_options.clipboard {
                Some((m, ps)) => if ps.len() > 0 {
                    Some((copy_strings(ps), match m {
                        ClipboardMode::Copy => TransferMode::Copy,
                        ClipboardMode::Cut => TransferMode::Move,
                    }))
                } else {
                    None
                },
                None => None,
            },
        };
        match chosen {
            Some((paths, mode)) => {
                self.transfer.start(&paths, mode);
                Some((paths, mode))
            },
            None => None,
        }
    }

    /// A new item was created at `path` in the active location: the location reloads and the
    /// item is selected and renamed in place, its name (or `fallback`) in the field.
    pub fn after_item_created(&mut self, path: String, fallback: &str)
        requires
            explorer_wf(*old(self)),
        ensures
            explorer_wf(*final(self)),
            final(self).fs_cache@ == requested(invalidated(old(self).fs_cache@, active_location(*old(self))), active_location(*old(self))),
            final(self).view_options.selected.deep_view() == seq![path@],
            final(self).view_options.renaming matches Some(r) && r.path@ == path@ && r.text@ == (match crate::paths::file_name_of(path@) {
                Some(n) => n,
                None => fallback@,
            }) && r.select_all_on_focus && !r.cancel_removes_target,
            crate::selection::settings_kept(final(self).view_options, old(self).view_options),
            final(self).tabs == old(self).tabs,
            final(self).active_tab == old(self).active_tab,
            final(self).next_tab_id == old(self).next_tab_id,
            final(self).thumbnails == old(self).thumbnails,
            final(self).path_bar_edit == old(self).path_bar_edit,
            rest_same(*final(self), *old(self)),
    {
        let dir = self.active_path();
        self.fs_cache.invalidate(dir.as_str());
        self.fs_cache.request_listing(dir);
        let name = match crate::paths::file_name(path.as_str()) {
            Some(n) => n,
            None => string_from_chars(&chars_of(fallback)),
        };
        let again = copy_string(&path);
        self.view_options.select_only(path);
        self.view_options.start_rename(again, name);
    }

    /// Starts renaming the sole selected path, its name taken from the active listing.
    pub fn start_rename_from_selection(&mut self)
        requires
            explorer_wf(*old(self)),
        ensures
            explorer_wf(*final(self)),
            old(self).view_options.selected.len() != 1 ==> *final(self) == *old(self),
            old(self).view_options.selected.len() == 1 ==> {
                let p = old(self).view_options.selected@[0]@;
                &&& final(self).view_options.renaming matches Some(r) && r.path@ == p && r.text@ == rename_text(
                    lookup(old(self).fs_cache@.listings, active_location(*old(self))),
                    p,
                ) && r.select_all_on_focus && !r.cancel_removes_target
                &&& final(self).view_options.selected@ == old(self).view_options.selected@
                &&& crate::selection::settings_kept(final(self).view_options, old(self).view_options)
                &&& final(self).tabs == old(self).tabs
                &&& final(self).active_tab == old(self).active_tab
                &&& final(self).fs_cache == old(self).fs_cache
                &&& final(self).thumbnails == old(self).thumbnails
                &&& final(self).path_bar_edit == old(self).path_bar_edit
                &&& rest_same(*final(self), *old(self))
            },
    {
        if self.view_options.selected.len() != 1 {
            return;
        }
        let path = copy_string(&self.view_options.selected[0]);
        let parent = self.active_path();
        let from_listing = match self.fs_cache.listing(parent.as_str()) {
            Some(l) => entry_name(&l.entries, path.as_str()),
            None => None,
        };
        let text = match from_listing {
            Some(n) => n,
            None => match crate::paths::file_name(path.as_str()) {
                Some(n) => n,
                None => String::new(),
            },
        };
        self.view_options.start_rename(path, text);
    }

    /// The paths to delete: the selection, when there is one.
    pub fn selection_for_delete(&self) -> (r: Option<Vec<String>>)
        ensures
            match r {
                Some(ps) => self.view_options.selected.len() > 0 && ps.deep_view() == self.view_options.selected.deep_view(),
                None => self.view_options.selected.len() == 0,
            },
    {
        if self.view_options.selected.len() == 0 {
            return None;
        }
        Some(copy_strings(&self.view_options.selected))
    }

    /// `paths` were deleted (or moved to the trash): their directories reload, the selection
    /// clears and the toast says how many.
    pub fn after_delete(&mut self, paths: &Vec<String>)
        ensures
            final(self).fs_cache@ == reloaded(old(self).fs_cache@, crate::transfer::unique_paths(parent_list(paths.deep_view()))),
            cache_wf(old(self).fs_cache@) ==> cache_wf(final(self).fs_cache@),
            final(self).view_options.selected@.len() == 0,
            final(self).view_options.renaming is None,
            crate::selection::settings_kept(final(self).view_options, old(self).view_options),
            final(self).quick_toast matches Some(t) && t@ == items_message("Deleted"@, paths.len() as nat),
            final(self).tabs == old(self).tabs,
            final(self).active_tab == old(self).active_tab,
            final(self).next_tab_id == old(self).next_tab_id,
            final(self).file_tree == old(self).file_tree,
            final(self).transfer == old(self).transfer,
            final(self).thumbnails == old(self).thumbnails,
            final(self).clipboard_paste_available == old(self).clipboard_paste_available,
            final(self).path_bar_edit == old(self).path_bar_edit,
            final(self).properties_dialog == old(self).properties_dialog,
            settings_same(*final(self), *old(self)),
    {
        let parents = crate::transfer::unique_path_list(&parents_of(paths));
        reload_paths(&mut self.fs_cache, &parents);
        self.view_options.clear_selection();
        self.quick_toast = Some(items_toast("Deleted", paths.len()));
    }

    /// Ends the rename under way and says where it moves its path; the caller moves it and
    /// then calls `finish_rename_commit`. `None`, with the rename ended, when there is nothing
    /// to move (see `rename_destination`); `None` with nothing changed when no rename is under way.
    pub fn begin_rename_commit(&mut self) -> (r: Option<RenamePlan>)
        ensures
            final(self).view_options.renaming is None,
            final(self).view_options.selected == old(self).view_options.selected,
            crate::selection::settings_kept(final(self).view_options, old(self).view_options),
            final(self).tabs == old(self).tabs,
            final(self).active_tab == old(self).active_tab,
            final(self).fs_cache == old(self).fs_cache,
            final(self).thumbnails == old(self).thumbnails,
            final(self).path_bar_edit == old(self).path_bar_edit,
            rest_same(*final(self), *old(self)),
            match old(self).view_options.renaming {
                None => r is None,
                Some(rn) => match rename_destination(rn.path@, rn.text@) {
                    None => r is None,
                    Some(to) => r matches Some(plan) && plan.rename == rn && plan.new_path@ == to,
                },
            },
            final(self).next_tab_id == old(self).next_tab_id,
    {
        let rename = match self.view_options.renaming.take() {
            Some(rn) => rn,
            None => {
                return None;
            },
        };
        let trimmed = crate::text::trim_chars(&chars_of(rename.text.as_str()));
        if trimmed.len() == 0 {
            return None;
        }
        let parent = match crate::paths::parent_path(rename.path.as_str()) {
            Some(p) => p,
            None => {
                return None;
            },
        };
        let name = string_from_chars(&trimmed);
        let new_path = crate::paths::join_path(parent.as_str(), name.as_str());
        if paths_equal(new_path.as_str(), rename.path.as_str()) {
            return None;
        }
        Some(RenamePlan { rename, new_path })
    }

    /// The caller tried the rename of `plan`: on failure the rename field comes back as it
    /// was; on success the parent directory reloads and the selection follows the new path.
    pub fn finish_rename_commit(&mut self, plan: RenamePlan, moved: bool) -> (r: bool)
        ensures
            r == moved,
            !moved ==> {
                &&& final(self).view_options.renaming == Some(plan.rename)
                &&& final(self).view_options.selected == old(self).view_options.selected
                &&& final(self).fs_cache == old(self).fs_cache
            },
            moved ==> {
                &&& final(self).view_options.renaming == old(self).view_options.renaming
                &&& final(self).view_options.selected.deep_view() == renamed_in(
                    old(self).view_options.selected.deep_view(),
                    plan.rename.path@,
                    plan.new_path@,
                )
                &&& final(self).fs_cache@ == (match crate::paths::parent_of(plan.rename.path@) {
                    Some(parent) => requested(invalidated(old(self).fs_cache@, parent), parent),
                    None => old(self).fs_cache@,
                })
            },
            cache_wf(old(self).fs_cache@) ==> cache_wf(final(self).fs_cache@),
            crate::selection::settings_kept(final(self).view_options, old(self).view_options),
            final(self).tabs == old(self).tabs,
            final(self).active_tab == old(self).active_tab,
            final(self).thumbnails == old(self).thumbnails,
            final(self).path_bar_edit == old(self).path_bar_edit,
            rest_same(*final(self), *old(self)),
            final(self).next_tab_id == old(self).next_tab_id,
    {
        if !moved {
            self.view_options.renaming = Some(plan.rename);
            return false;
        }
        match crate::paths::parent_path(plan.rename.path.as_str()) {
            Some(parent) => {
                self.fs_cache.invalidate(parent.as_str());
                self.fs_cache.request_listing(parent);
            },
            None => {},
        }
        let ghost sel0 = self.view_options.selected.deep_view();
        let mut out: Vec<String> = Vec::new();
        let mut i: usize = 0;
        while i < self.view_options.selected.len()
            invariant
                i <= self.view_options.selected.len(),
                sel0 == self.view_options.selected.deep_view(),
                out.deep_view() == renamed_in(sel0, plan.rename.path@, plan.new_path@).take(i as int),
            decreases self.view_options.selected.len() - i,
        {
            let ghost before = out.deep_view();
            assert(sel0[i as int] == self.view_options.selected@[i as int]@);
            if paths_equal(self.view_options.selected[i].as_str(), plan.rename.path.as_str()) {
                out.push(copy_string(&plan.new_path));
            } else {
                out.push(copy_string(&self.view_options.selected[i]));
            }
            assert(out.deep_view() =~= before.push(renamed_in(sel0, plan.rename.path@, plan.new_path@)[i as int]));
            assert(out.deep_view() =~= renamed_in(sel0, plan.rename.path@, plan.new_path@).take(i + 1));
            i = i + 1;
        }
        assert(renamed_in(sel0, plan.rename.path@, plan.new_path@).take(i as int) =~= renamed_in(
            sel0,
            plan.rename.path@,
            plan.new_path@,
        ));
        self.view_options.selected = out;
        true
    }

    /// Opens the properties dialog for the selection, or for the active location when nothing
    /// is selected; the paths and location to count, which the caller does.
    pub fn show_properties_for_selection(&mut self) -> (r: (Vec<String>, String))
        requires
            explorer_wf(*old(self)),
        ensures
            explorer_wf(*final(self)),
            r.0.deep_view() == (if old(self).view_options.selected.len() == 0 {
                seq![active_location(*old(self))]
            } else {
                old(self).view_options.selected.deep_view()
            }),
            r.1@ == active_location(*old(self)),
            final(self).properties_dialog matches Some(d) && d.loading && d.item_count == r.0.len()
                && d.title@ == crate::properties::properties_title(r.0.deep_view()) && d.location@
                == crate::properties::properties_location(r.0.deep_view(), r.1@),
            content_same(*final(self), *old(self)),
            final(self).path_bar_edit == old(self).path_bar_edit,
            final(self).quick_toast == old(self).quick_toast,
            settings_same(*final(self), *old(self)),
    {
        let location = self.active_path();
        let paths = if self.view_options.selected.len() == 0 {
            let mut v: Vec<String> = Vec::new();
            v.push(copy_string(&location));
            assert(v.deep_view() =~= seq![location@]);
            v
        } else {
            copy_strings(&self.view_options.selected)
        };
        self.properties_dialog = Some(crate::properties::build_properties_loading(&paths, location.as_str()));
        (paths, location)
    }

    /// The counts came back: the dialog shows them.
    pub fn set_properties_result(&mut self, dialog: PropertiesDialog)
        ensures
            final(self).properties_dialog == Some(dialog),
            content_same(*final(self), *old(self)),
            final(self).path_bar_edit == old(self).path_bar_edit,
            final(self).quick_toast == old(self).quick_toast,
            settings_same(*final(self), *old(self)),
    {
        self.properties_dialog = Some(dialog);
    }

    pub fn close_properties_dialog(&mut self)
        ensures
            final(self).properties_dialog is None,
            content_same(*final(self), *old(self)),
            final(self).path_bar_edit == old(self).path_bar_edit,
            final(self).quick_toast == old(self).quick_toast,
            settings_same(*final(self), *old(self)),
    {
        self.properties_dialog = None;
    }

    /// Reloads the directories the last transfer touched; once a transfer has finished
    /// without error, the toast reports how many items were pasted and the selection and the
    /// explorer's clipboard clear.
    pub fn apply_transfer_invalidation(&mut self)
        ensures
            final(self).fs_cache@ == reloaded(old(self).fs_cache@, crate::transfer::unique_paths(old(self).transfer.invalidation.deep_view())),
            cache_wf(old(self).fs_cache@) ==> cache_wf(final(self).fs_cache@),
            final(self).transfer.invalidation@.len() == 0,
            final(self).transfer.progress == old(self).transfer.progress,
            ({
                let p = old(self).transfer.progress;
                if !p.active && p.error is None && p.label@ == "Done"@ {
                    &&& final(self).quick_toast matches Some(t) && t@ == items_message(
                        "Pasted"@,
                        pasted_count(p.done_files as nat, p.total_files as nat),
                    )
                    &&& final(self).view_options.selected@.len() == 0
                    &&& final(self).view_options.renaming is None
                    &&& final(self).view_options.clipboard is None
                } else {
                    &&& final(self).quick_toast == old(self).quick_toast
                    &&& final(self).view_options == old(self).view_options
                }
            }),
            final(self).view_options.view_mode == old(self).view_options.view_mode,
            final(self).view_options.sort_field == old(self).view_options.sort_field,
            final(self).view_options.sort_order == old(self).view_options.sort_order,
            final(self).view_options.show_hidden_files == old(self).view_options.show_hidden_files,
            final(self).view_options.show_file_extensions == old(self).view_options.show_file_extensions,
            final(self).tabs == old(self).tabs,
            final(self).active_tab == old(self).active_tab,
            final(self).next_tab_id == old(self).next_tab_id,
            final(self).thumbnails == old(self).thumbnails,
            final(self).file_tree == old(self).file_tree,
            final(self).path_bar_edit == old(self).path_bar_edit,
            final(self).properties_dialog == old(self).properties_dialog,
            settings_same(*final(self), *old(self)),
            final(self).clipboard_paste_available == old(self).clipboard_paste_available,
    {
        let paths = self.transfer.take_invalidation();
        reload_paths(&mut self.fs_cache, &paths);
        let done = !self.transfer.progress.active && self.transfer.progress.error.is_none() && crate::text::chars_eq(
            &chars_of(self.transfer.progress.label.as_str()),
            &chars_of("Done"),
        );
        if done {
            let files = self.transfer.progress.done_files;
            let total = self.transfer.progress.total_files;
            let mut pasted = if files > total {
                files
            } else {
                total
            };
            if pasted < 1 {
                pasted = 1;
            }
            self.quick_toast = Some(items_toast("Pasted", pasted));
            self.view_options.clear_selection();
            self.view_options.clipboard = None;
        }
    }

    /// Gives the tree node at `path` its children from the listing of `path` once complete;
    /// requests the listing when there is none.
    pub fn populate_tree_children(&mut self, path: &str)
        ensures
            (tree_view(final(self).file_tree), final(self).fs_cache@) == populated(
                tree_view(old(self).file_tree),
                old(self).fs_cache@,
                path@,
            ),
            cache_wf(old(self).fs_cache@) ==> cache_wf(final(self).fs_cache@),
            final(self).tabs == old(self).tabs,
            final(self).active_tab == old(self).active_tab,
            final(self).next_tab_id == old(self).next_tab_id,
            final(self).view_options == old(self).view_options,
            final(self).transfer == old(self).transfer,
            final(self).thumbnails == old(self).thumbnails,
            final(self).clipboard_paste_available == old(self).clipboard_paste_available,
            dialogs_same(*final(self), *old(self)),
            settings_same(*final(self), *old(self)),
    {
        match self.fs_cache.listing(path) {
            Some(l) => {
                if l.complete {
                    edit_tree_at(&mut self.file_tree, path, TreeEdit::Load, &l.entries);
                }
            },
            None => {
                self.fs_cache.request_listing(path.to_string());
            },
        }
    }

    fn load_tree_path(&mut self, target: &str)
        ensures
            (tree_view(final(self).file_tree), final(self).fs_cache@) == tree_path_loaded(
                tree_view(old(self).file_tree),
                old(self).fs_cache@,
                target@,
            ),
            cache_wf(old(self).fs_cache@) ==> cache_wf(final(self).fs_cache@),
            final(self).tabs == old(self).tabs,
            final(self).active_tab == old(self).active_tab,
            final(self).next_tab_id == old(self).next_tab_id,
            final(self).view_options == old(self).view_options,
            final(self).transfer == old(self).transfer,
            final(self).thumbnails == old(self).thumbnails,
            final(self).clipboard_paste_available == old(self).clipboard_paste_available,
            dialogs_same(*final(self), *old(self)),
            settings_same(*final(self), *old(self)),
    {
        let root = copy_string(&self.file_tree.path);
        if !crate::tree::path_starts_with(target, root.as_str()) {
            return;
        }
        self.populate_tree_children(root.as_str());
        if paths_equal(target, root.as_str()) {
            return;
        }
        let tp = crate::paths::parse_path(&chars_of(target));
        let rp = crate::paths::parse_path(&chars_of(root.as_str()));
        let ghost rest0 = crate::paths::path_parts(target@).skip(crate::paths::path_parts(root@).len() as int);
        let ghost goal = walk_populate(
            tree_view(self.file_tree),
            self.fs_cache@,
            root@,
            rest0,
            target@,
        );
        let mut current = root;
        let mut k: usize = rp.parts.len();
        assert(tp.parts_view().skip(k as int) =~= rest0);
        while k < tp.parts.len()
            invariant
                rp.parts.len() <= k <= tp.parts.len(),
                tp.parts_view() == crate::paths::path_parts(target@),
                rest0 == crate::paths::path_parts(target@).skip(crate::paths::path_parts(root@).len() as int),
                walk_populate(tree_view(self.file_tree), self.fs_cache@, current@, tp.parts_view().skip(k as int), target@)
                    == goal,
                goal == tree_path_loaded(tree_view(old(self).file_tree), old(self).fs_cache@, target@),
                cache_wf(old(self).fs_cache@) ==> cache_wf(self.fs_cache@),
                self.tabs == old(self).tabs,
                self.active_tab == old(self).active_tab,
                self.next_tab_id == old(self).next_tab_id,
                self.view_options == old(self).view_options,
                self.transfer == old(self).transfer,
                self.thumbnails == old(self).thumbnails,
                self.clipboard_paste_available == old(self).clipboard_paste_available,
                dialogs_same(*self, *old(self)),
                settings_same(*self, *old(self)),
            decreases tp.parts.len() - k,
        {
            let ghost rest = tp.parts_view().skip(k as int);
            assert(rest[0] == tp.parts@[k as int]@);
            assert(rest.drop_first() =~= tp.parts_view().skip(k + 1));
            let part = &tp.parts[k];
            let dotdot = part.len() == 2 && part[0] == '.' && part[1] == '.';
            assert(dotdot == (rest[0] == seq!['.', '.'])) by {
                if rest[0] == seq!['.', '.'] {
                    assert(rest[0].len() == 2);
                }
                if dotdot {
                    assert(rest[0] =~= seq!['.', '.']);
                }
            }
            if !dotdot {
                let name = string_from_chars(part);
                let next = crate::paths::join_path(current.as_str(), name.as_str());
                self.populate_tree_children(next.as_str());
                if paths_equal(next.as_str(), target) {
                    return;
                }
                current = next;
            }
            k = k + 1;
        }
        assert(tp.parts_view().skip(k as int) =~= Seq::<Seq<char>>::empty());
    }

    /// Opens or closes the tree node at `path`. Closing closes everything below it; opening
    /// loads the way down to it, keeps only that branch open, opens it and asks for its
    /// children.
    pub fn toggle_tree_expand(&mut self, path: &str)
        ensures
            cache_wf(old(self).fs_cache@) ==> cache_wf(final(self).fs_cache@),
            ({
                let t0 = tree_view(old(self).file_tree);
                match find_view(t0, path@) {
                    None => *final(self) == *old(self),
                    Some(n) => if n.expanded {
                        &&& tree_view(final(self).file_tree) == edit_view(t0, path@, TreeEdit::Collapse, Seq::empty()).0
                        &&& final(self).fs_cache == old(self).fs_cache
                    } else {
                        let (t1, c1) = tree_path_loaded(t0, old(self).fs_cache@, path@);
                        let t2 = crate::tree::branch_view(t1, path@);
                        let t3 = edit_view(t2, path@, TreeEdit::Expand, Seq::empty()).0;
                        match find_view(t2, path@) {
                            Some(m) => if !m.loaded {
                                (tree_view(final(self).file_tree), final(self).fs_cache@) == populated(t3, c1, path@)
                            } else {
                                tree_view(final(self).file_tree) == t3 && final(self).fs_cache@ == c1
                            },
                            None => tree_view(final(self).file_tree) == t2 && final(self).fs_cache@ == c1,
                        }
                    },
                }
            }),
            final(self).tabs == old(self).tabs,
            final(self).active_tab == old(self).active_tab,
            final(self).next_tab_id == old(self).next_tab_id,
            final(self).view_options == old(self).view_options,
            final(self).transfer == old(self).transfer,
            final(self).thumbnails == old(self).thumbnails,
            final(self).clipboard_paste_available == old(self).clipboard_paste_available,
            dialogs_same(*final(self), *old(self)),
            settings_same(*final(self), *old(self)),
    {
        let expanded = match find_tree_node(&self.file_tree, path) {
            Some(node) => node.expanded,
            None => {
                return;
            },
        };
        let no_entries: Vec<crate::entries::FileEntry> = Vec::new();
        proof {
            assert(dir_leaves(crate::entries::entry_views(no_entries@)) =~= Seq::<TreeView>::empty()) by {
                assert(crate::entries::entry_views(no_entries@) =~= Seq::<crate::entries::FileEntryView>::empty());
            }
        }
        if expanded {
            edit_tree_at(&mut self.file_tree, path, TreeEdit::Collapse, &no_entries);
            return;
        }
        self.load_tree_path(path);
        crate::tree::enforce_single_branch(&mut self.file_tree, path);
        let loaded = match find_tree_node(&self.file_tree, path) {
            Some(node) => Some(node.children_loaded),
            None => None,
        };
        match loaded {
            Some(l) => {
                edit_tree_at(&mut self.file_tree, path, TreeEdit::Expand, &no_entries);
                if !l {
                    self.populate_tree_children(path);
                }
            },
            None => {},
        }
    }

    /// The tree node at `path`.
    pub fn tree_node(&self, path: &str) -> (r: Option<&TreeNode>)
        ensures
            match r {
                Some(n) => find_view(tree_view(self.file_tree), path@) == Some(tree_view(*n)),
                None => find_view(tree_view(self.file_tree), path@) is None,
            },
    {
        find_tree_node(&self.file_tree, path)
    }

    /// The entries the file view shows for the active location, once its listing is complete.
    pub fn visible_directory_entries(&self) -> (r: Option<Vec<crate::entries::FileEntry>>)
        requires
            explorer_wf(*self),
        ensures
            match lookup(self.fs_cache@.listings, active_location(*self)) {
                Some(l) if l.complete => r matches Some(es) && crate::entries::entry_views(es@) == crate::entries::sorted_by(
                    crate::view::visible_entries(l.entries, self.view_options.show_hidden_files),
                    self.view_options.sort_field,
                    self.view_options.sort_order,
                ),
                _ => r is None,
            },
    {
        crate::selection::visible_directory_entries(&self.fs_cache, self.tabs[self.active_tab].current.as_str(), &self.view_options)
    }

    /// Selects every entry shown, once the active listing is complete.
    pub fn select_all_active(&mut self)
        requires
            explorer_wf(*old(self)),
        ensures
            explorer_wf(*final(self)),
            ({
                match lookup(old(self).fs_cache@.listings, active_location(*old(self))) {
                    Some(l) if l.complete => final(self).view_options.selected.deep_view() == crate::selection::entry_paths(
                        crate::entries::sorted_by(
                            crate::view::visible_entries(l.entries, old(self).view_options.show_hidden_files),
                            old(self).view_options.sort_field,
                            old(self).view_options.sort_order,
                        ),
                    ),
                    _ => final(self).view_options == old(self).view_options,
                }
            }),
            crate::selection::settings_kept(final(self).view_options, old(self).view_options),
            final(self).tabs == old(self).tabs,
            final(self).active_tab == old(self).active_tab,
            final(self).fs_cache == old(self).fs_cache,
            final(self).thumbnails == old(self).thumbnails,
            final(self).path_bar_edit == old(self).path_bar_edit,
            rest_same(*final(self), *old(self)),
            final(self).next_tab_id == old(self).next_tab_id,
    {
        match self.visible_directory_entries() {
            Some(entries) => crate::selection::select_all_active(&mut self.view_options, &entries),
            None => {},
        }
    }

    /// One frame of keyboard input, with `columns` tiles to a grid row; see
    /// `shortcuts::handle_keyboard_shortcuts`. The path bar and the settings dialog keep the
    /// keyboard while open.
    pub fn handle_keyboard_shortcuts(&mut self, frame: &crate::shortcuts::KeyFrame, columns: usize) -> (r:
        crate::shortcuts::KeyOutcome)
        requires
            explorer_wf(*old(self)),
        ensures
            explorer_wf(*final(self)),
            final(self).tabs == old(self).tabs,
            final(self).active_tab == old(self).active_tab,
            final(self).fs_cache == old(self).fs_cache,
            final(self).thumbnails == old(self).thumbnails,
            final(self).path_bar_edit == old(self).path_bar_edit,
            rest_same(*final(self), *old(self)),
            ({
                let es = match lookup(old(self).fs_cache@.listings, active_location(*old(self))) {
                    Some(l) if l.complete => Some(crate::entries::sorted_by(
                        crate::view::visible_entries(l.entries, old(self).view_options.show_hidden_files),
                        old(self).view_options.sort_field,
                        old(self).view_options.sort_order,
                    )),
                    _ => None,
                };
                crate::shortcuts::keyboard_result(
                    old(self).view_options,
                    es,
                    columns as int,
                    old(self).keybinds,
                    old(self).path_bar_edit is Some || old(self).settings_dialog_open,
                    *frame,
                    r,
                    final(self).view_options,
                )
            }),
            final(self).next_tab_id == old(self).next_tab_id,
    {
        let entries = self.visible_directory_entries();
        let blocked = self.path_bar_edit.is_some() || self.settings_dialog_open;
        crate::shortcuts::handle_keyboard_shortcuts(&mut self.view_options, &entries, columns, &self.keybinds, blocked, frame)
    }

    /// Starts thumbnail work for `path` once its listing is complete, unless it is already the
    /// thumbnails' directory; the jobs to start.
    pub fn schedule_directory_thumbnails(&mut self, path: &str) -> (jobs: Vec<crate::thumbs::ThumbnailJob>)
        ensures
            ({
                let t0 = old(self).thumbnails@;
                let skip = (t0.directory matches Some(d) && same_path(d, path@));
                match lookup(old(self).fs_cache@.listings, path@) {
                    Some(l) if l.complete && !skip => {
                        let queue = crate::thumbs::media_jobs(l.entries);
                        let start = crate::thumbs::SchedulerView {
                            directory: Some(path@),
                            generation: crate::thumbs::next_generation(t0.generation),
                            queue,
                            pending: Seq::empty(),
                            loaded: Seq::empty(),
                            total: queue.len() as int,
                            finished: 0,
                        };
                        &&& final(self).thumbnails@ == crate::thumbs::dispatched(start).0
                        &&& crate::thumbs::jobs_view(jobs@) == crate::thumbs::dispatched(start).1
                    },
                    _ => final(self).thumbnails == old(self).thumbnails && jobs@.len() == 0,
                }
            }),
            final(self).tabs == old(self).tabs,
            final(self).active_tab == old(self).active_tab,
            final(self).next_tab_id == old(self).next_tab_id,
            final(self).fs_cache == old(self).fs_cache,
            final(self).view_options == old(self).view_options,
            final(self).path_bar_edit == old(self).path_bar_edit,
            rest_same(*final(self), *old(self)),
    {
        match self.thumbnails.directory() {
            Some(d) => {
                if paths_equal(d.as_str(), path) {
                    return Vec::new();
                }
            },
            None => {},
        }
        match self.fs_cache.listing(path) {
            Some(l) => {
                if !l.complete {
                    return Vec::new();
                }
                self.thumbnails.begin_directory_load(path.to_string(), &l.entries)
            },
            None => Vec::new(),
        }
    }

    /// Whether `path` is loading: its listing or its thumbnails.
    pub fn is_directory_loading(&self, path: &str) -> (r: bool)
        ensures
            r == (crate::listing::loading(self.fs_cache@, path@) || (self.thumbnails@.directory matches Some(d) && same_path(
                d,
                path@,
            ) && self.thumbnails@.total > 0 && (self.thumbnails@.finished < self.thumbnails@.total
                || self.thumbnails@.queue.len() > 0 || self.thumbnails@.pending.len() > 0))),
    {
        self.fs_cache.is_listing_loading(path) || self.thumbnails.is_loading(path)
    }

    /// Applies what the file watcher reported about the active location; `true` when its
    /// listing changed.
    pub fn apply_fs_notify_changes(&mut self, changes: &Vec<crate::listing::FileChange>) -> (changed: bool)
        requires
            explorer_wf(*old(self)),
        ensures
            explorer_wf(*final(self)),
            (final(self).fs_cache@, changed) == crate::listing::after_file_changes(
                old(self).fs_cache@,
                active_location(*old(self)),
                changes@,
            ),
            final(self).tabs == old(self).tabs,
            final(self).active_tab == old(self).active_tab,
            final(self).next_tab_id == old(self).next_tab_id,
            final(self).view_options == old(self).view_options,
            final(self).thumbnails == old(self).thumbnails,
            final(self).path_bar_edit == old(self).path_bar_edit,
            rest_same(*final(self), *old(self)),
    {
        let active = copy_string(&self.tabs[self.active_tab].current);
        self.fs_cache.apply_file_changes(active.as_str(), changes)
    }

    /// The selected paths as text, one per line, for the text clipboard; the toast says how
    /// many. `None` when nothing is selected.
    pub fn copy_selection_as_paths(&mut self) -> (r: Option<String>)
        ensures
            old(self).view_options.selected.len() == 0 ==> r is None && *final(self) == *old(self),
            old(self).view_options.selected.len() > 0 ==> {
                &&& r matches Some(t) && t@ == lines_text(old(self).view_options.selected.deep_view())
                &&& final(self).quick_toast matches Some(t) && t@ == "Copied "@ + decimal_digits(
                    old(self).view_options.selected.len() as nat,
                ) + " path(s)"@
            },
            content_same(*final(self), *old(self)),
            final(self).path_bar_edit == old(self).path_bar_edit,
            final(self).properties_dialog == old(self).properties_dialog,
            settings_same(*final(self), *old(self)),
    {
        if self.view_options.selected.len() == 0 {
            return None;
        }
        let text = join_lines(&self.view_options.selected);
        let mut message = chars_of("Copied ");
        let digits = decimal_chars(self.view_options.selected.len() as u64);
        crate::text::append_chars(&mut message, &digits);
        append_str(&mut message, " path(s)");
        self.quick_toast = Some(string_from_chars(&message));
        Some(text)
    }

    /// Opens the selection. A single selected directory (`first_is_dir`, as the caller found
    /// it) is shown in the active tab; otherwise the paths returned are opened with their
    /// applications.
    pub fn open_selection(&mut self, first_is_dir: bool) -> (r: Vec<String>)
        requires
            explorer_wf(*old(self)),
        ensures
            explorer_wf(*final(self)),
            ({
                let sel = old(self).view_options.selected.deep_view();
                if sel.len() == 0 {
                    r@.len() == 0 && *final(self) == *old(self)
                } else if sel.len() == 1 && first_is_dir {
                    let i = old(self).active_tab as int;
                    &&& r@.len() == 0
                    &&& final(self).path_bar_edit is None
                    &&& tab_views(final(self).tabs@) == tab_views(old(self).tabs@).update(i, navigated(old(self).tabs@[i]@, sel[0]))
                    &&& left_directory(*final(self), *old(self))
                    &&& final(self).fs_cache@ == requested(old(self).fs_cache@, sel[0])
                } else {
                    r.deep_view() == sel && *final(self) == *old(self)
                }
            }),
    {
        if self.view_options.selected.len() == 0 {
            return Vec::new();
        }
        if self.view_options.selected.len() == 1 && first_is_dir {
            assert(self.view_options.selected.deep_view()[0] == self.view_options.selected@[0]@);
            let path = copy_string(&self.view_options.selected[0]);
            self.navigate_active(path, true);
            return Vec::new();
        }
        copy_strings(&self.view_options.selected)
    }
}

/// Closing a tab leaves a tab shown; closing another tab than the one shown keeps it shown.
pub proof fn law_close_keeps_shown_tab(tabs: Seq<ExplorerTab>, active: int, index: int)
    requires
        tabs.len() > 1,
        0 <= active < tabs.len(),
        0 <= index < tabs.len(),
    ensures
        0 <= active_after_close(active, index, tabs.len() as int) < tabs.len() - 1,
        index != active ==> tabs.remove(index)[active_after_close(active, index, tabs.len() as int)] == tabs[active],
{
}

} // verus!
