//! The status bar: how many entries are selected and shown, and how large the selection is.
use vstd::prelude::*;

use crate::entries::{entry_views, FileEntry, FileEntryView};
use crate::format::{item_count_label, item_count_text};
use crate::paths::{paths_equal, same_path};
use crate::text::{append_chars, append_str, chars_of, string_from_chars};

verus! {

/// Size of the first entry of `es` at `p`, or 0 when none is.
pub open spec fn size_at(es: Seq<FileEntryView>, p: Seq<char>) -> int
    decreases es.len(),
{
    if es.len() == 0 {
        0
    } else if same_path(es[0].path, p) {
        es[0].size as int
    } else {
        size_at(es.drop_first(), p)
    }
}

/// Bytes of the selected paths that the listing holds, each counted as its first entry.
pub open spec fn selected_bytes(es: Seq<FileEntryView>, sel: Seq<Seq<char>>) -> int
    decreases sel.len(),
{
    if sel.len() == 0 {
        0
    } else {
        selected_bytes(es, sel.drop_last()) + size_at(es, sel.last())
    }
}

proof fn lemma_selected_bytes_monotone(es: Seq<FileEntryView>, sel: Seq<Seq<char>>, k: int)
    requires
        0 <= k <= sel.len(),
    ensures
        selected_bytes(es, sel.take(k)) <= selected_bytes(es, sel),
        selected_bytes(es, sel.take(k)) >= 0,
    decreases sel.len(),
{
    lemma_size_nonneg(es, sel);
    if k < sel.len() {
        assert(sel.drop_last().take(k) =~= sel.take(k));
        lemma_selected_bytes_monotone(es, sel.drop_last(), k);
        lemma_size_at_nonneg(es, sel.last());
    } else {
        assert(sel.take(k) =~= sel);
    }
}

proof fn lemma_size_at_nonneg(es: Seq<FileEntryView>, p: Seq<char>)
    ensures
        size_at(es, p) >= 0,
    decreases es.len(),
{
    if es.len() > 0 && !same_path(es[0].path, p) {
        lemma_size_at_nonneg(es.drop_first(), p);
    }
}

proof fn lemma_size_nonneg(es: Seq<FileEntryView>, sel: Seq<Seq<char>>)
    ensures
        selected_bytes(es, sel) >= 0,
    decreases sel.len(),
{
    if sel.len() > 0 {
        lemma_size_nonneg(es, sel.drop_last());
        lemma_size_at_nonneg(es, sel.last());
    }
}

fn entry_size(listing: &Vec<FileEntry>, path: &str) -> (r: u64)
    ensures
        r as int == size_at(entry_views(listing@), path@),
{
    let ghost es = entry_views(listing@);
    let mut i: usize = 0;
    assert(es.skip(0) =~= es);
    while i < listing.len()
        invariant
            i <= listing.len(),
            es == entry_views(listing@),
            size_at(es.skip(i as int), path@) == size_at(es, path@),
        decreases listing.len() - i,
    {
        assert(es.skip(i as int)[0] == listing@[i as int]@);
        assert(es.skip(i as int).drop_first() =~= es.skip(i + 1));
        if paths_equal(listing[i].path.as_str(), path) {
            return listing[i].size;
        }
        i = i + 1;
    }
    0
}

/// Bytes of the selected paths, as the listing gives their sizes; the total must fit a `u64`.
pub fn selected_bytes_from_listing(listing: &Vec<FileEntry>, selected: &Vec<String>) -> (r: u64)
    requires
        selected_bytes(entry_views(listing@), selected.deep_view()) <= u64::MAX,
    ensures
        r as int == selected_bytes(entry_views(listing@), selected.deep_view()),
{
    let ghost es = entry_views(listing@);
    let ghost sel = selected.deep_view();
    let mut total: u64 = 0;
    let mut i: usize = 0;
    assert(sel.take(0) =~= Seq::<Seq<char>>::empty());
    while i < selected.len()
        invariant
            i <= selected.len(),
            es == entry_views(listing@),
            sel == selected.deep_view(),
            selected_bytes(es, sel) <= u64::MAX,
            total as int == selected_bytes(es, sel.take(i as int)),
        decreases selected.len() - i,
    {
        assert(sel.take(i + 1).drop_last() =~= sel.take(i as int));
        assert(sel.take(i + 1).last() == selected@[i as int]@);
        proof {
            lemma_selected_bytes_monotone(es, sel, i + 1);
            lemma_size_nonneg(es, sel.take(i as int));
        }
        let size = entry_size(listing, selected[i].as_str());
        total = total + size;
        i = i + 1;
    }
    assert(sel.take(i as int) =~= sel);
    total
}

/// `<selected> selected / <shown>`, each as `1 item` or `N items`.
pub open spec fn status_text(selected: nat, shown: nat) -> Seq<char> {
    item_count_text(selected) + " selected / "@ + item_count_text(shown)
}

/// Left-hand text of the status bar.
pub fn status_summary(selected_count: usize, shown_count: usize) -> (r: String)
    ensures
        r@ == status_text(selected_count as nat, shown_count as nat),
{
    let mut out = chars_of(item_count_label(selected_count).as_str());
    append_str(&mut out, " selected / ");
    append_str(&mut out, item_count_label(shown_count).as_str());
    assert(out@ =~= status_text(selected_count as nat, shown_count as nat));
    string_from_chars(&out)
}

} // verus!
