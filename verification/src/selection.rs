//! Moving and extending the selection through the entries the file view shows.
use vstd::prelude::*;

use crate::entries::{entry_views, FileEntry, FileEntryView};
use crate::paths::{paths_equal, same_path};
use crate::listing::{lookup, FsCache};
use crate::nav::{neighbor_of, selection_neighbor_index, LinearDirection, NavKey};
use crate::text::copy_string;
use crate::view::{first_match, lemma_first_match, prepare_entries, selection_has, visible_entries, FileViewOptions};
use crate::entries::sorted_by;

verus! {

/// Paths of the shown entries, in order.
pub open spec fn entry_paths(es: Seq<FileEntryView>) -> Seq<Seq<char>> {
    es.map_values(|e: FileEntryView| e.path)
}

/// Positions among `paths` of the selected paths that are shown, in selection order.
pub open spec fn selected_positions(sel: Seq<Seq<char>>, paths: Seq<Seq<char>>) -> Seq<int>
    decreases sel.len(),
{
    if sel.len() == 0 {
        Seq::empty()
    } else {
        let rest = selected_positions(sel.drop_last(), paths);
        let k = first_match(paths, sel.last());
        if k >= 0 {
            rest.push(k)
        } else {
            rest
        }
    }
}

pub open spec fn seq_min(s: Seq<int>) -> int
    decreases s.len(),
{
    if s.len() <= 1 {
        s[0]
    } else {
        let m = seq_min(s.drop_last());
        if s.last() < m {
            s.last()
        } else {
            m
        }
    }
}

pub open spec fn seq_max(s: Seq<int>) -> int
    decreases s.len(),
{
    if s.len() <= 1 {
        s[0]
    } else {
        let m = seq_max(s.drop_last());
        if s.last() > m {
            s.last()
        } else {
            m
        }
    }
}

pub open spec fn all_distinct(s: Seq<int>) -> bool {
    forall|i: int, j: int| 0 <= i < j < s.len() ==> s[i] != s[j]
}

/// `(first, last)` position when the shown selected entries are a contiguous run.
pub open spec fn contiguous_range(sel: Seq<Seq<char>>, paths: Seq<Seq<char>>) -> Option<(int, int)> {
    let pos = selected_positions(sel, paths);
    if pos.len() > 0 && all_distinct(pos) && pos.len() == seq_max(pos) - seq_min(pos) + 1 {
        Some((seq_min(pos), seq_max(pos)))
    } else {
        None
    }
}

proof fn lemma_min_max(s: Seq<int>)
    requires
        s.len() > 0,
    ensures
        forall|i: int| 0 <= i < s.len() ==> seq_min(s) <= #[trigger] s[i] <= seq_max(s),
        exists|i: int| 0 <= i < s.len() && s[i] == seq_min(s),
        exists|i: int| 0 <= i < s.len() && s[i] == seq_max(s),
    decreases s.len(),
{
    if s.len() > 1 {
        let d = s.drop_last();
        lemma_min_max(d);
        assert forall|i: int| 0 <= i < s.len() implies seq_min(s) <= #[trigger] s[i] <= seq_max(s) by {
            if i < d.len() {
                assert(s[i] == d[i]);
            }
        }
        let a = choose|i: int| 0 <= i < d.len() && d[i] == seq_min(d);
        let b = choose|i: int| 0 <= i < d.len() && d[i] == seq_max(d);
        assert(s[a] == d[a]);
        assert(s[b] == d[b]);
        assert(s[s.len() - 1] == s.last());
    } else {
        assert(s[0] == seq_min(s));
    }
}

proof fn lemma_positions_bound(sel: Seq<Seq<char>>, paths: Seq<Seq<char>>)
    ensures
        forall|i: int| 0 <= i < selected_positions(sel, paths).len() ==> 0 <= #[trigger] selected_positions(
            sel,
            paths,
        )[i] < paths.len(),
        selected_positions(sel, paths).len() <= sel.len(),
    decreases sel.len(),
{
    if sel.len() > 0 {
        lemma_positions_bound(sel.drop_last(), paths);
        lemma_first_match(paths, sel.last());
    }
}

/// Position of the first shown entry at `path`.
fn entry_position(entries: &Vec<FileEntry>, path: &str) -> (r: Option<usize>)
    ensures
        match r {
            Some(i) => i == first_match(entry_paths(entry_views(entries@)), path@),
            None => first_match(entry_paths(entry_views(entries@)), path@) == -1,
        },
{
    let ghost ps = entry_paths(entry_views(entries@));
    proof {
        lemma_first_match(ps, path@);
    }
    let mut i: usize = 0;
    while i < entries.len()
        invariant
            i <= entries.len(),
            ps == entry_paths(entry_views(entries@)),
            ps.len() == entries.len(),
            -1 <= first_match(ps, path@) < ps.len(),
            forall|k: int| 0 <= k < ps.len() && (first_match(ps, path@) == -1 || k < first_match(ps, path@))
                ==> !same_path(#[trigger] ps[k], path@),
            first_match(ps, path@) >= 0 ==> same_path(ps[first_match(ps, path@)], path@),
            first_match(ps, path@) == -1 || first_match(ps, path@) >= i,
        decreases entries.len() - i,
    {
        assert(ps[i as int] == entries@[i as int].path@);
        if paths_equal(entries[i].path.as_str(), path) {
            return Some(i);
        }
        i = i + 1;
    }
    None
}

/// Indices `(min, max)` when the current selection is a contiguous run in entry order.
pub fn contiguous_selection_range(selected: &Vec<String>, entries: &Vec<FileEntry>) -> (r: Option<(usize, usize)>)
    ensures
        match r {
            Some((lo, hi)) => contiguous_range(selected.deep_view(), entry_paths(entry_views(entries@)))
                == Some((lo as int, hi as int)),
            None => contiguous_range(selected.deep_view(), entry_paths(entry_views(entries@))) is None,
        },
{
    let ghost sel = selected.deep_view();
    let ghost ps = entry_paths(entry_views(entries@));
    let mut positions: Vec<usize> = Vec::new();
    let mut i: usize = 0;
    while i < selected.len()
        invariant
            i <= selected.len(),
            sel == selected.deep_view(),
            ps == entry_paths(entry_views(entries@)),
            positions@.map_values(|p: usize| p as int) == selected_positions(sel.take(i as int), ps),
            forall|k: int| 0 <= k < positions.len() ==> #[trigger] positions@[k] < entries.len(),
        decreases selected.len() - i,
    {
        assert(sel.take(i + 1).drop_last() =~= sel.take(i as int));
        assert(sel.take(i + 1).last() == selected@[i as int]@);
        proof {
            lemma_first_match(ps, selected@[i as int]@);
        }
        match entry_position(entries, selected[i].as_str()) {
            Some(k) => {
                let ghost before = positions@;
                positions.push(k);
                assert(positions@.map_values(|p: usize| p as int) =~= before.map_values(|p: usize| p as int).push(
                    k as int,
                ));
            },
            None => {},
        }
        i = i + 1;
    }
    assert(sel.take(selected.len() as int) =~= sel);
    let ghost pos = positions@.map_values(|p: usize| p as int);
    if positions.len() == 0 {
        return None;
    }
    let mut lo: usize = positions[0];
    let mut hi: usize = positions[0];
    let mut j: usize = 1;
    assert(pos.take(1) =~= seq![pos[0]]);
    while j < positions.len()
        invariant
            1 <= j <= positions.len(),
            pos == positions@.map_values(|p: usize| p as int),
            pos == selected_positions(selected.deep_view(), entry_paths(entry_views(entries@))),
            lo == seq_min(pos.take(j as int)),
            hi == seq_max(pos.take(j as int)),
        decreases positions.len() - j,
    {
        assert(pos.take(j + 1).drop_last() =~= pos.take(j as int));
        assert(pos.take(j + 1).last() == positions@[j as int]);
        if positions[j] < lo {
            lo = positions[j];
        }
        if positions[j] > hi {
            hi = positions[j];
        }
        j = j + 1;
    }
    assert(pos.take(positions.len() as int) =~= pos);
    let mut a: usize = 0;
    while a < positions.len()
        invariant
            a <= positions.len(),
            pos == positions@.map_values(|p: usize| p as int),
            pos == selected_positions(selected.deep_view(), entry_paths(entry_views(entries@))),
            forall|x: int, y: int| 0 <= x < y < pos.len() && x < a ==> pos[x] != pos[y],
        decreases positions.len() - a,
    {
        let mut b: usize = a + 1;
        while b < positions.len()
            invariant
                a < b <= positions.len(),
                a < positions.len(),
                pos == positions@.map_values(|p: usize| p as int),
                pos == selected_positions(selected.deep_view(), entry_paths(entry_views(entries@))),
            pos == selected_positions(selected.deep_view(), entry_paths(entry_views(entries@))),
                forall|x: int, y: int| 0 <= x < y < pos.len() && x < a ==> pos[x] != pos[y],
                forall|y: int| a < y < b ==> pos[a as int] != #[trigger] pos[y],
            decreases positions.len() - b,
        {
            if positions[a] == positions[b] {
                assert(pos[a as int] == pos[b as int]);
                assert(!all_distinct(pos));
                return None;
            }
            b = b + 1;
        }
        a = a + 1;
    }
    proof {
        lemma_min_max(pos);
        assert(all_distinct(pos));
        assert(pos[0] == positions@[0]);
    }
    if positions.len() - 1 == hi - lo {
        Some((lo, hi))
    } else {
        None
    }
}

/// Everything but the selection and the rename is as it was.
pub open spec fn settings_kept(a: FileViewOptions, b: FileViewOptions) -> bool {
    &&& a.view_mode == b.view_mode
    &&& a.sort_field == b.sort_field
    &&& a.sort_order == b.sort_order
    &&& a.show_hidden_files == b.show_hidden_files
    &&& a.show_file_extensions == b.show_file_extensions
    &&& a.clipboard == b.clipboard
}

/// Entry one step past a contiguous run `(lo, hi)` of `count` entries.
pub open spec fn linear_target(range: Option<(int, int)>, count: int, dir: LinearDirection) -> Option<int> {
    match range {
        Some((lo, hi)) => match dir {
            LinearDirection::Next => if hi + 1 < count {
                Some(hi + 1)
            } else {
                None
            },
            LinearDirection::Prev => if lo > 0 {
                Some(lo - 1)
            } else {
                None
            },
        },
        None => None,
    }
}

proof fn lemma_range_bounds(sel: Seq<Seq<char>>, paths: Seq<Seq<char>>)
    ensures
        contiguous_range(sel, paths) matches Some((lo, hi)) ==> 0 <= lo <= hi < paths.len(),
{
    let pos = selected_positions(sel, paths);
    lemma_positions_bound(sel, paths);
    if pos.len() > 0 {
        lemma_min_max(pos);
        let a = choose|i: int| 0 <= i < pos.len() && pos[i] == seq_min(pos);
        let b = choose|i: int| 0 <= i < pos.len() && pos[i] == seq_max(pos);
        assert(0 <= pos[a] < paths.len());
        assert(0 <= pos[b] < paths.len());
    }
}

/// Linear next/prev without shift: collapse a contiguous selection onto the adjacent item.
pub fn move_selection_linear(options: &mut FileViewOptions, entries: &Vec<FileEntry>, direction: LinearDirection) -> (r:
    bool)
    ensures
        ({
            let paths = entry_paths(entry_views(entries@));
            match linear_target(contiguous_range(old(options).selected.deep_view(), paths), entries.len() as int, direction) {
                Some(t) => {
                    &&& r
                    &&& final(options).selected.deep_view() == seq![paths[t]]
                    &&& final(options).renaming is None
                    &&& settings_kept(*final(options), *old(options))
                },
                None => !r && *final(options) == *old(options),
            }
        }),
{
    let ghost paths = entry_paths(entry_views(entries@));
    proof {
        lemma_range_bounds(options.selected.deep_view(), paths);
    }
    let range = contiguous_selection_range(&options.selected, entries);
    let target = match range {
        Some((lo, hi)) => match direction {
            LinearDirection::Next => if hi + 1 < entries.len() {
                hi + 1
            } else {
                return false;
            },
            LinearDirection::Prev => if lo > 0 {
                lo - 1
            } else {
                return false;
            },
        },
        None => {
            return false;
        },
    };
    assert(paths[target as int] == entries@[target as int].path@);
    options.select_only(copy_string(&entries[target].path));
    true
}

/// Where `p` sorts among the shown entries: its position, or last of all when not shown.
pub open spec fn position_key(p: Seq<char>, paths: Seq<Seq<char>>) -> int {
    let k = first_match(paths, p);
    if k >= 0 {
        k
    } else {
        usize::MAX as int
    }
}

/// `x` placed after every path of `s` that sorts no later.
pub open spec fn insert_by_position(s: Seq<Seq<char>>, x: Seq<char>, paths: Seq<Seq<char>>) -> Seq<Seq<char>>
    decreases s.len(),
{
    if s.len() == 0 || position_key(s.last(), paths) <= position_key(x, paths) {
        s.push(x)
    } else {
        insert_by_position(s.drop_last(), x, paths).push(s.last())
    }
}

/// `s` stably sorted by where its paths are shown.
pub open spec fn sort_by_position(s: Seq<Seq<char>>, paths: Seq<Seq<char>>) -> Seq<Seq<char>>
    decreases s.len(),
{
    if s.len() == 0 {
        Seq::empty()
    } else {
        insert_by_position(sort_by_position(s.drop_last(), paths), s.last(), paths)
    }
}

proof fn lemma_insert_at(s: Seq<Seq<char>>, x: Seq<char>, paths: Seq<Seq<char>>, j: int)
    requires
        0 <= j <= s.len(),
        forall|i: int| j <= i < s.len() ==> position_key(#[trigger] s[i], paths) > position_key(x, paths),
        j > 0 ==> position_key(s[j - 1], paths) <= position_key(x, paths),
    ensures
        insert_by_position(s, x, paths) == s.take(j).push(x) + s.skip(j),
    decreases s.len(),
{
    if j == s.len() {
        assert(s.take(j).push(x) + s.skip(j) =~= s.push(x));
    } else {
        let d = s.drop_last();
        assert(s[s.len() - 1] == s.last());
        assert forall|i: int| j <= i < d.len() implies position_key(#[trigger] d[i], paths) > position_key(x, paths) by {
            assert(d[i] == s[i]);
        }
        if j > 0 {
            assert(d[j - 1] == s[j - 1]);
        }
        lemma_insert_at(d, x, paths, j);
        assert(d.take(j).push(x) + d.skip(j) + seq![s.last()] =~= s.take(j).push(x) + s.skip(j));
        assert(insert_by_position(d, x, paths).push(s.last()) =~= insert_by_position(d, x, paths) + seq![s.last()]);
    }
}

fn position_key_of(entries: &Vec<FileEntry>, p: &String) -> (r: usize)
    ensures
        r as int == position_key(p@, entry_paths(entry_views(entries@))),
{
    proof {
        lemma_first_match(entry_paths(entry_views(entries@)), p@);
    }
    match entry_position(entries, p.as_str()) {
        Some(i) => i,
        None => usize::MAX,
    }
}

/// Sorts `selected` stably by where each path is shown.
fn sort_selection_by_position(selected: &mut Vec<String>, entries: &Vec<FileEntry>)
    ensures
        final(selected).deep_view() == sort_by_position(old(selected).deep_view(), entry_paths(entry_views(entries@))),
{
    let ghost paths = entry_paths(entry_views(entries@));
    let ghost orig = selected.deep_view();
    let mut rest: Vec<String> = Vec::new();
    std::mem::swap(&mut rest, selected);
    let mut out: Vec<String> = Vec::new();
    let ghost k: int = 0;
    assert(orig.take(0) =~= Seq::<Seq<char>>::empty());
    assert(orig.skip(0) =~= orig);
    while rest.len() > 0
        invariant
            0 <= k <= orig.len(),
            paths == entry_paths(entry_views(entries@)),
            out.deep_view() == sort_by_position(orig.take(k), paths),
            rest.deep_view() == orig.skip(k),
            rest.len() + k == orig.len(),
        decreases rest.len(),
    {
        let ghost before_rest = rest.deep_view();
        let ghost before_vec = rest@;
        let x = rest.remove(0);
        assert(before_rest[0] == x@);
        assert(rest@ =~= before_vec.subrange(1, before_vec.len() as int));
        assert forall|i: int| 0 <= i < rest.len() implies #[trigger] rest.deep_view()[i] == before_rest[i + 1] by {
            assert(rest@[i] == before_vec[i + 1]);
        }
        assert(rest.deep_view() =~= orig.skip(k + 1));
        assert(orig.take(k + 1).drop_last() =~= orig.take(k));
        assert(orig.take(k + 1).last() == x@);
        let kx = position_key_of(entries, &x);
        let mut j: usize = out.len();
        while j > 0 && position_key_of(entries, &out[j - 1]) > kx
            invariant
                j <= out.len(),
                kx as int == position_key(x@, paths),
                paths == entry_paths(entry_views(entries@)),
                forall|i: int| j <= i < out.len() ==> position_key(#[trigger] out.deep_view()[i], paths) > kx,
            decreases j,
        {
            assert(out.deep_view()[j - 1] == out@[j - 1]@);
            j = j - 1;
        }
        proof {
            if j > 0 {
                assert(out.deep_view()[j - 1] == out@[j - 1]@);
            }
            lemma_insert_at(out.deep_view(), x@, paths, j as int);
        }
        let ghost before_out = out.deep_view();
        out.insert(j, x);
        assert(out.deep_view() =~= before_out.take(j as int).push(x@) + before_out.skip(j as int));
        proof {
            k = k + 1;
        }
    }
    assert(k == orig.len());
    assert(orig.take(k) =~= orig);
    *selected = out;
}

/// Shift + linear navigation key: extend a contiguous selection by one entry, then order the
/// selection as the entries are shown.
pub fn extend_selection_linear(options: &mut FileViewOptions, entries: &Vec<FileEntry>, direction: LinearDirection) -> (r:
    bool)
    ensures
        ({
            let paths = entry_paths(entry_views(entries@));
            let old_sel = old(options).selected.deep_view();
            match linear_target(contiguous_range(old_sel, paths), entries.len() as int, direction) {
                Some(t) => {
                    &&& r
                    &&& final(options).selected.deep_view() == sort_by_position(
                        if selection_has(old_sel, paths[t]) {
                            old_sel
                        } else {
                            old_sel.push(paths[t])
                        },
                        paths,
                    )
                    &&& final(options).renaming == old(options).renaming
                    &&& settings_kept(*final(options), *old(options))
                },
                None => !r && *final(options) == *old(options),
            }
        }),
{
    let ghost paths = entry_paths(entry_views(entries@));
    proof {
        lemma_range_bounds(options.selected.deep_view(), paths);
    }
    if entries.len() == 0 {
        return false;
    }
    let range = contiguous_selection_range(&options.selected, entries);
    let target = match range {
        Some((lo, hi)) => match direction {
            LinearDirection::Next => if hi + 1 < entries.len() {
                hi + 1
            } else {
                return false;
            },
            LinearDirection::Prev => if lo > 0 {
                lo - 1
            } else {
                return false;
            },
        },
        None => {
            return false;
        },
    };
    assert(paths[target as int] == entries@[target as int].path@);
    options.add_to_selection(copy_string(&entries[target].path));
    sort_selection_by_position(&mut options.selected, entries);
    true
}

/// Space with no selection picks the first entry.
pub fn advance_selection_with_space(options: &mut FileViewOptions, entries: &Vec<FileEntry>) -> (r: bool)
    ensures
        r == (entries.len() > 0 && old(options).selected.len() == 0),
        r ==> final(options).selected.deep_view() == seq![entries@[0].path@] && final(options).renaming is None
            && settings_kept(*final(options), *old(options)),
        !r ==> *final(options) == *old(options),
{
    if entries.len() == 0 || options.selected.len() > 0 {
        return false;
    }
    options.select_only(copy_string(&entries[0].path));
    true
}

/// Moves the sole selected item with arrow keys, `columns` tiles to a grid row. `true` if the
/// selection changed.
pub fn move_selection_with_arrow(options: &mut FileViewOptions, entries: &Vec<FileEntry>, columns: usize, key: NavKey) -> (r:
    bool)
    ensures
        ({
            let paths = entry_paths(entry_views(entries@));
            let sel = old(options).selected.deep_view();
            let target = if sel.len() == 1 && first_match(paths, sel[0]) >= 0 {
                neighbor_of(first_match(paths, sel[0]), entries.len() as int, old(options).view_mode, columns as int, key)
            } else {
                None
            };
            match target {
                Some(t) => {
                    &&& r
                    &&& 0 <= t < paths.len()
                    &&& final(options).selected.deep_view() == seq![paths[t]]
                    &&& final(options).renaming is None
                    &&& settings_kept(*final(options), *old(options))
                },
                None => !r && *final(options) == *old(options),
            }
        }),
{
    let ghost paths = entry_paths(entry_views(entries@));
    if options.selected.len() != 1 {
        return false;
    }
    assert(options.selected.deep_view()[0] == options.selected@[0]@);
    proof {
        lemma_first_match(paths, options.selected@[0]@);
    }
    let current = match entry_position(entries, options.selected[0].as_str()) {
        Some(i) => i,
        None => {
            return false;
        },
    };
    let next = match selection_neighbor_index(current, entries.len(), options.view_mode, columns, key) {
        Some(n) => n,
        None => {
            return false;
        },
    };
    proof {
        crate::nav::law_neighbor_in_range(current as int, entries.len() as int, options.view_mode, columns as int, key);
    }
    assert(paths[next as int] == entries@[next as int].path@);
    options.select_only(copy_string(&entries[next].path));
    true
}

/// Selects every shown entry.
pub fn select_all_active(options: &mut FileViewOptions, entries: &Vec<FileEntry>)
    ensures
        final(options).selected.deep_view() == entry_paths(entry_views(entries@)),
        settings_kept(*final(options), *old(options)),
{
    let mut paths: Vec<String> = Vec::new();
    let mut i: usize = 0;
    while i < entries.len()
        invariant
            i <= entries.len(),
            paths.deep_view() == entry_paths(entry_views(entries@)).take(i as int),
        decreases entries.len() - i,
    {
        let ghost before = paths.deep_view();
        paths.push(copy_string(&entries[i].path));
        assert(paths.deep_view() =~= before.push(entries@[i as int].path@));
        assert(paths.deep_view() =~= entry_paths(entry_views(entries@)).take(i + 1));
        i = i + 1;
    }
    assert(entry_paths(entry_views(entries@)).take(i as int) =~= entry_paths(entry_views(entries@)));
    options.set_selection(paths);
}

/// Entries the file view shows for `directory`: only once its listing is complete.
pub fn visible_directory_entries(cache: &FsCache, directory: &str, options: &FileViewOptions) -> (r: Option<Vec<FileEntry>>)
    ensures
        match lookup(cache@.listings, directory@) {
            Some(l) if l.complete => r matches Some(es) && entry_views(es@) == sorted_by(
                visible_entries(l.entries, options.show_hidden_files),
                options.sort_field,
                options.sort_order,
            ),
            _ => r is None,
        },
{
    match cache.listing(directory) {
        Some(l) => if l.complete {
            Some(prepare_entries(&l.entries, options))
        } else {
            None
        },
        None => None,
    }
}

/// How an entry was clicked.
#[derive(Clone, Copy, Debug, PartialEq, Eq, Structural)]
pub enum ClickKind {
    Double,
    Secondary,
    Primary,
}

/// What a click on an entry asks of the caller.
#[derive(Clone, Copy, Debug, PartialEq, Eq, Structural)]
pub enum ClickOutcome {
    /// Nothing more to do.
    Done,
    /// Open the clicked entry: go into it when a directory, else open the file.
    Open,
}

/// A click on the entry at `path` (a directory when `is_dir`, shown as `label`): a double
/// click opens it; a secondary click selects it unless selected; a plain click, unless it ends
/// a drag or a marquee is being drawn, toggles it with a multi-select modifier, starts renaming
/// it when already selected, else selects only it.
pub fn handle_item_click(
    options: &mut FileViewOptions,
    kind: ClickKind,
    dragged: bool,
    marquee_active: bool,
    multi: bool,
    path: String,
    label: String,
) -> (r: ClickOutcome)
    ensures
        ({
            let sel = old(options).selected.deep_view();
            let selected = selection_has(sel, path@);
            match kind {
                ClickKind::Double => {
                    &&& r == ClickOutcome::Open
                    &&& final(options).renaming is None
                    &&& final(options).selected@ == old(options).selected@
                    &&& settings_kept(*final(options), *old(options))
                },
                ClickKind::Secondary => {
                    &&& r == ClickOutcome::Done
                    &&& selected ==> *final(options) == *old(options)
                    &&& !selected ==> final(options).selected.deep_view() == seq![path@]
                        && final(options).renaming is None && settings_kept(*final(options), *old(options))
                },
                ClickKind::Primary => {
                    &&& r == ClickOutcome::Done
                    &&& (dragged || marquee_active) ==> *final(options) == *old(options)
                    &&& !(dragged || marquee_active) ==> settings_kept(*final(options), *old(options)) && (if multi {
                        final(options).selected.deep_view() == (if first_match(sel, path@) >= 0 {
                            sel.remove(first_match(sel, path@))
                        } else {
                            sel.push(path@)
                        })
                    } else if selected {
                        &&& final(options).selected@ == old(options).selected@
                        &&& final(options).renaming matches Some(rn) && rn.path@ == path@ && rn.text@ == label@
                            && rn.select_all_on_focus && !rn.cancel_removes_target
                    } else {
                        final(options).selected.deep_view() == seq![path@] && final(options).renaming is None
                    })
                },
            }
        }),
{
    let selected = options.is_selected(path.as_str());
    match kind {
        ClickKind::Double => {
            options.cancel_rename();
            ClickOutcome::Open
        },
        ClickKind::Secondary => {
            if !selected {
                options.select_only(path);
            }
            ClickOutcome::Done
        },
        ClickKind::Primary => {
            if dragged || marquee_active {
                return ClickOutcome::Done;
            }
            if multi {
                options.toggle_in_selection(path);
            } else if selected {
                options.start_rename(path, label);
            } else {
                options.select_only(path);
            }
            ClickOutcome::Done
        },
    }
}

} // verus!
