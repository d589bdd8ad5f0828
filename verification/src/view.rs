//! File-view options: view mode, sort, hidden files, selection, rename and in-app clipboard.
use vstd::prelude::*;

use crate::entries::{entry_views, sort_entries_by, sorted_by, FileEntry, FileEntryView, SortField, SortOrder};
use crate::paths::{paths_equal, same_path};
use crate::text::{chars_of, copy_string, string_from_chars};

verus! {

/// How the file view lays out entries.
#[derive(Clone, Copy, Debug, PartialEq, Eq, Structural)]
pub enum ViewMode {
    SmallIcons,
    LargeIcons,
    SmallList,
    LargeList,
}

/// Whether clipboard paths are to be copied or moved on paste.
#[derive(Clone, Copy, Debug, PartialEq, Eq, Structural)]
pub enum ClipboardMode {
    Copy,
    Cut,
}

/// An entry being renamed in place.
pub struct RenameState {
    pub path: String,
    pub text: String,
    pub select_all_on_focus: bool,
    pub cancel_removes_target: bool,
}

/// Options and transient selection state of the file view.
pub struct FileViewOptions {
    pub view_mode: ViewMode,
    pub sort_field: SortField,
    pub sort_order: SortOrder,
    pub show_hidden_files: bool,
    pub show_file_extensions: bool,
    pub selected: Vec<String>,
    pub renaming: Option<RenameState>,
    pub clipboard: Option<(ClipboardMode, Vec<String>)>,
}

/// Whether `sel` holds a path equal to `p` component-wise.
pub open spec fn selection_has(sel: Seq<Seq<char>>, p: Seq<char>) -> bool {
    exists|i: int| 0 <= i < sel.len() && same_path(#[trigger] sel[i], p)
}

/// Index of the first path of `sel` equal to `p`, or -1.
pub open spec fn first_match(sel: Seq<Seq<char>>, p: Seq<char>) -> int
    decreases sel.len(),
{
    if sel.len() == 0 {
        -1
    } else {
        let r = first_match(sel.drop_last(), p);
        if r >= 0 {
            r
        } else if same_path(sel.last(), p) {
            sel.len() - 1
        } else {
            -1
        }
    }
}

pub proof fn lemma_first_match(sel: Seq<Seq<char>>, p: Seq<char>)
    ensures
        -1 <= first_match(sel, p) < sel.len(),
        first_match(sel, p) >= 0 ==> same_path(sel[first_match(sel, p)], p),
        forall|k: int| 0 <= k < sel.len() && (first_match(sel, p) == -1 || k < first_match(sel, p))
            ==> !same_path(#[trigger] sel[k], p),
        (first_match(sel, p) >= 0) == selection_has(sel, p),
    decreases sel.len(),
{
    if sel.len() > 0 {
        let d = sel.drop_last();
        lemma_first_match(d, p);
        assert forall|k: int| 0 <= k < d.len() implies sel[k] == #[trigger] d[k] by {}
        assert forall|k: int| 0 <= k < sel.len() && (first_match(sel, p) == -1 || k < first_match(sel, p))
            implies !same_path(#[trigger] sel[k], p) by {
            if k < d.len() {
                assert(sel[k] == d[k]);
            }
        }
        if first_match(sel, p) >= 0 {
            let w = first_match(sel, p);
            assert(same_path(sel[w], p));
        } else {
            assert forall|i: int| 0 <= i < sel.len() implies !same_path(#[trigger] sel[i], p) by {
                if i < d.len() {
                    assert(sel[i] == d[i]);
                }
            }
        }
    }
}

/// Pushing `x` adds exactly the paths equal to `x`.
pub proof fn lemma_has_push(s: Seq<Seq<char>>, x: Seq<char>, q: Seq<char>)
    ensures
        selection_has(s.push(x), q) == (selection_has(s, q) || same_path(x, q)),
{
    if selection_has(s.push(x), q) {
        let i = choose|i: int| 0 <= i < s.push(x).len() && same_path(#[trigger] s.push(x)[i], q);
        if i < s.len() {
            assert(s[i] == s.push(x)[i]);
        }
    }
    if selection_has(s, q) {
        let i = choose|i: int| 0 <= i < s.len() && same_path(#[trigger] s[i], q);
        assert(s.push(x)[i] == s[i]);
    }
    if same_path(x, q) {
        assert(s.push(x)[s.len() as int] == x);
    }
}

/// Index of the first selected path equal to `path`.
pub fn position_in(sel: &Vec<String>, path: &str) -> (r: Option<usize>)
    ensures
        match r {
            Some(i) => i == first_match(sel.deep_view(), path@),
            None => first_match(sel.deep_view(), path@) == -1,
        },
{
    let ghost sv = sel.deep_view();
    let mut i: usize = 0;
    proof {
        lemma_first_match(sv, path@);
    }
    while i < sel.len()
        invariant
            i <= sel.len(),
            sv == sel.deep_view(),
            -1 <= first_match(sv, path@) < sv.len(),
            forall|k: int| 0 <= k < sv.len() && (first_match(sv, path@) == -1 || k < first_match(sv, path@))
                ==> !same_path(#[trigger] sv[k], path@),
            first_match(sv, path@) >= 0 ==> same_path(sv[first_match(sv, path@)], path@),
            first_match(sv, path@) == -1 || first_match(sv, path@) >= i,
        decreases sel.len() - i,
    {
        assert(sv[i as int] == sel@[i as int]@);
        if paths_equal(sel[i].as_str(), path) {
            return Some(i);
        }
        i = i + 1;
    }
    None
}

impl FileViewOptions {
    /// Options as they start: small icons, sorted by name ascending, hidden files hidden,
    /// extensions shown off, nothing selected.
    pub fn new() -> (r: FileViewOptions)
        ensures
            r.view_mode == ViewMode::SmallIcons,
            r.sort_field == SortField::Name,
            r.sort_order == SortOrder::Ascending,
            !r.show_hidden_files,
            !r.show_file_extensions,
            r.selected@.len() == 0,
            r.renaming is None,
            r.clipboard is None,
    {
        FileViewOptions {
            view_mode: ViewMode::SmallIcons,
            sort_field: SortField::Name,
            sort_order: SortOrder::Ascending,
            show_hidden_files: false,
            show_file_extensions: false,
            selected: Vec::new(),
            renaming: None,
            clipboard: None,
        }
    }

    pub fn set_sort(&mut self, field: SortField, order: SortOrder)
        ensures
            final(self).sort_field == field,
            final(self).sort_order == order,
            final(self).view_mode == old(self).view_mode,
            final(self).show_hidden_files == old(self).show_hidden_files,
            final(self).show_file_extensions == old(self).show_file_extensions,
            final(self).selected@ == old(self).selected@,
            final(self).renaming == old(self).renaming,
            final(self).clipboard == old(self).clipboard,
    {
        self.sort_field = field;
        self.sort_order = order;
    }

    pub fn has_selection(&self) -> (r: bool)
        ensures
            r == (self.selected@.len() > 0),
    {
        self.selected.len() > 0
    }

    /// Whether `path` is selected.
    pub fn is_selected(&self, path: &str) -> (r: bool)
        ensures
            r == selection_has(self.selected.deep_view(), path@),
    {
        proof {
            lemma_first_match(self.selected.deep_view(), path@);
        }
        position_in(&self.selected, path).is_some()
    }

    /// Deselects everything and ends any rename.
    pub fn clear_selection(&mut self)
        ensures
            final(self).selected@.len() == 0,
            final(self).renaming is None,
            final(self).view_mode == old(self).view_mode,
            final(self).sort_field == old(self).sort_field,
            final(self).sort_order == old(self).sort_order,
            final(self).show_hidden_files == old(self).show_hidden_files,
            final(self).show_file_extensions == old(self).show_file_extensions,
            final(self).clipboard == old(self).clipboard,
    {
        self.selected.clear();
        self.renaming = None;
    }

    pub fn cancel_rename(&mut self)
        ensures
            final(self).renaming is None,
            final(self).selected@ == old(self).selected@,
            final(self).view_mode == old(self).view_mode,
            final(self).sort_field == old(self).sort_field,
            final(self).sort_order == old(self).sort_order,
            final(self).show_hidden_files == old(self).show_hidden_files,
            final(self).show_file_extensions == old(self).show_file_extensions,
            final(self).clipboard == old(self).clipboard,
    {
        self.renaming = None;
    }

    /// Selects exactly `path` and ends any rename.
    pub fn select_only(&mut self, path: String)
        ensures
            final(self).selected.deep_view() == seq![path@],
            final(self).renaming is None,
            final(self).clipboard == old(self).clipboard,
            final(self).view_mode == old(self).view_mode,
            final(self).sort_field == old(self).sort_field,
            final(self).sort_order == old(self).sort_order,
            final(self).show_hidden_files == old(self).show_hidden_files,
            final(self).show_file_extensions == old(self).show_file_extensions,
    {
        let mut v: Vec<String> = Vec::new();
        v.push(path);
        self.selected = v;
        assert(self.selected.deep_view() =~= seq![path@]);
        self.renaming = None;
    }

    /// Removes `path` from the selection if selected (ending a rename of it), else appends it.
    pub fn toggle_in_selection(&mut self, path: String)
        ensures
            ({
                let old_sel = old(self).selected.deep_view();
                let k = first_match(old_sel, path@);
                if k >= 0 {
                    &&& final(self).selected.deep_view() == old_sel.remove(k)
                    &&& final(self).renaming == (if old(self).renaming matches Some(r) && same_path(
                        r.path@,
                        path@,
                    ) {
                        None
                    } else {
                        old(self).renaming
                    })
                } else {
                    &&& final(self).selected.deep_view() == old_sel.push(path@)
                    &&& final(self).renaming == old(self).renaming
                }
            }),
            final(self).clipboard == old(self).clipboard,
            final(self).view_mode == old(self).view_mode,
            final(self).sort_field == old(self).sort_field,
            final(self).sort_order == old(self).sort_order,
            final(self).show_hidden_files == old(self).show_hidden_files,
            final(self).show_file_extensions == old(self).show_file_extensions,
    {
        let ghost old_sel = self.selected.deep_view();
        proof {
            lemma_first_match(old_sel, path@);
        }
        match position_in(&self.selected, path.as_str()) {
            Some(index) => {
                self.selected.remove(index);
                assert(self.selected.deep_view() =~= old_sel.remove(index as int));
                let clear = match &self.renaming {
                    Some(rename) => paths_equal(rename.path.as_str(), path.as_str()),
                    None => false,
                };
                if clear {
                    self.renaming = None;
                }
            },
            None => {
                self.selected.push(path);
                assert(self.selected.deep_view() =~= old_sel.push(path@));
            },
        }
    }

    /// Replaces the selection; a rename of a path no longer selected ends.
    pub fn set_selection(&mut self, paths: Vec<String>)
        ensures
            final(self).selected.deep_view() == paths.deep_view(),
            final(self).renaming == (if old(self).renaming matches Some(r) && !selection_has(
                paths.deep_view(),
                r.path@,
            ) {
                None
            } else {
                old(self).renaming
            }),
            final(self).clipboard == old(self).clipboard,
            final(self).view_mode == old(self).view_mode,
            final(self).sort_field == old(self).sort_field,
            final(self).sort_order == old(self).sort_order,
            final(self).show_hidden_files == old(self).show_hidden_files,
            final(self).show_file_extensions == old(self).show_file_extensions,
    {
        self.selected = paths;
        let keep = match &self.renaming {
            Some(rename) => self.is_selected(rename.path.as_str()),
            None => true,
        };
        if !keep {
            self.renaming = None;
        }
    }

    /// Starts renaming `path` with `text` in the field, all of it selected on focus.
    pub fn start_rename(&mut self, path: String, text: String)
        ensures
            final(self).renaming matches Some(r) && r.path@ == path@ && r.text@ == text@
                && r.select_all_on_focus && !r.cancel_removes_target,
            final(self).selected@ == old(self).selected@,
            final(self).clipboard == old(self).clipboard,
            final(self).view_mode == old(self).view_mode,
            final(self).sort_field == old(self).sort_field,
            final(self).sort_order == old(self).sort_order,
            final(self).show_hidden_files == old(self).show_hidden_files,
            final(self).show_file_extensions == old(self).show_file_extensions,
    {
        self.renaming = Some(
            RenameState { path, text, select_all_on_focus: true, cancel_removes_target: false },
        );
    }

    /// Starts renaming a just-created `path`; cancelling the rename removes it.
    pub fn start_rename_select_all(&mut self, path: String, text: String)
        ensures
            final(self).renaming matches Some(r) && r.path@ == path@ && r.text@ == text@
                && r.select_all_on_focus && r.cancel_removes_target,
            final(self).selected@ == old(self).selected@,
            final(self).clipboard == old(self).clipboard,
            final(self).view_mode == old(self).view_mode,
            final(self).sort_field == old(self).sort_field,
            final(self).sort_order == old(self).sort_order,
            final(self).show_hidden_files == old(self).show_hidden_files,
            final(self).show_file_extensions == old(self).show_file_extensions,
    {
        self.renaming = Some(
            RenameState { path, text, select_all_on_focus: true, cancel_removes_target: true },
        );
    }

    /// Appends `path` to the selection unless it is already selected.
    pub fn add_to_selection(&mut self, path: String)
        ensures
            final(self).selected.deep_view() == (if selection_has(old(self).selected.deep_view(), path@) {
                old(self).selected.deep_view()
            } else {
                old(self).selected.deep_view().push(path@)
            }),
            final(self).renaming == old(self).renaming,
            final(self).clipboard == old(self).clipboard,
            final(self).view_mode == old(self).view_mode,
            final(self).sort_field == old(self).sort_field,
            final(self).sort_order == old(self).sort_order,
            final(self).show_hidden_files == old(self).show_hidden_files,
            final(self).show_file_extensions == old(self).show_file_extensions,
    {
        if self.is_selected(path.as_str()) {
            return;
        }
        let ghost old_sel = self.selected.deep_view();
        self.selected.push(path);
        assert(self.selected.deep_view() =~= old_sel.push(path@));
    }

    /// Leaving a directory clears the selection and any rename.
    pub fn on_directory_changed(&mut self)
        ensures
            final(self).selected@.len() == 0,
            final(self).renaming is None,
            final(self).view_mode == old(self).view_mode,
            final(self).sort_field == old(self).sort_field,
            final(self).sort_order == old(self).sort_order,
            final(self).show_hidden_files == old(self).show_hidden_files,
            final(self).show_file_extensions == old(self).show_file_extensions,
            final(self).clipboard == old(self).clipboard,
    {
        self.clear_selection();
    }
}

/// Entries shown when hidden files are shown or not.
pub open spec fn visible_entries(s: Seq<FileEntryView>, show_hidden: bool) -> Seq<FileEntryView>
    decreases s.len(),
{
    if s.len() == 0 {
        Seq::empty()
    } else if show_hidden || !s.last().is_hidden {
        visible_entries(s.drop_last(), show_hidden).push(s.last())
    } else {
        visible_entries(s.drop_last(), show_hidden)
    }
}

/// Entries of a listing as the file view shows them: hidden ones dropped unless shown, then
/// in listing order for the chosen sort.
pub fn prepare_entries(listing: &Vec<FileEntry>, options: &FileViewOptions) -> (r: Vec<FileEntry>)
    ensures
        entry_views(r@) == sorted_by(
            visible_entries(entry_views(listing@), options.show_hidden_files),
            options.sort_field,
            options.sort_order,
        ),
{
    let mut kept: Vec<FileEntry> = Vec::new();
    let mut i: usize = 0;
    let ghost all = entry_views(listing@);
    assert(all.take(0) =~= Seq::<FileEntryView>::empty());
    while i < listing.len()
        invariant
            i <= listing.len(),
            all == entry_views(listing@),
            entry_views(kept@) == visible_entries(all.take(i as int), options.show_hidden_files),
        decreases listing.len() - i,
    {
        assert(all.take(i + 1).drop_last() =~= all.take(i as int));
        assert(all.take(i + 1).last() == listing@[i as int]@);
        if options.show_hidden_files || !listing[i].is_hidden {
            let ghost before = entry_views(kept@);
            let e = listing[i].duplicate();
            kept.push(e);
            assert(entry_views(kept@) =~= before.push(e@));
        }
        i = i + 1;
    }
    assert(all.take(listing.len() as int) =~= all);
    sort_entries_by(kept, options.sort_field, options.sort_order)
}

} // verus!
