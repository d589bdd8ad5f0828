//! Cache of directory listings that worker threads fill in.
use vstd::prelude::*;

use crate::entries::{entry_views, sort_entries_by, sorted_by, FileEntry, FileEntryView, SortField, SortOrder};
use crate::paths::{paths_equal, same_path};
use crate::text::{chars_of, copy_string, string_from_chars};
use crate::view::{first_match, lemma_first_match, lemma_has_push, position_in, selection_has};

verus! {

/// Entries of one directory, `complete` once the worker has finished.
pub struct DirectoryListing {
    pub entries: Vec<FileEntry>,
    pub complete: bool,
}

pub struct ListingView {
    pub entries: Seq<FileEntryView>,
    pub complete: bool,
}

impl View for DirectoryListing {
    type V = ListingView;

    open spec fn view(&self) -> ListingView {
        ListingView { entries: entry_views(self.entries@), complete: self.complete }
    }
}

impl DirectoryListing {
    /// An empty listing still loading.
    pub fn new() -> (r: DirectoryListing)
        ensures
            r@ == (ListingView { entries: Seq::empty(), complete: false }),
    {
        let r = DirectoryListing { entries: Vec::new(), complete: false };
        assert(entry_views(r.entries@) =~= Seq::<FileEntryView>::empty());
        r
    }
}

/// What a listing worker reports. `Disconnected` stands for a worker that went away.
pub enum ListingEvent {
    Entry(FileEntry),
    Complete,
    Disconnected,
}

/// Listings by directory, and the directories whose workers are still running.
pub struct FsCache {
    pub listings: Vec<(String, DirectoryListing)>,
    pub pending: Vec<String>,
}

pub struct FsCacheView {
    pub listings: Seq<(Seq<char>, ListingView)>,
    pub pending: Seq<Seq<char>>,
}

impl View for FsCache {
    type V = FsCacheView;

    open spec fn view(&self) -> FsCacheView {
        FsCacheView {
            listings: self.listings@.map_values(|e: (String, DirectoryListing)| (e.0@, e.1@)),
            pending: self.pending.deep_view(),
        }
    }
}

pub open spec fn listing_keys(ls: Seq<(Seq<char>, ListingView)>) -> Seq<Seq<char>> {
    ls.map_values(|e: (Seq<char>, ListingView)| e.0)
}

/// Listing cached for directory `p`.
pub open spec fn lookup(ls: Seq<(Seq<char>, ListingView)>, p: Seq<char>) -> Option<ListingView> {
    let k = first_match(listing_keys(ls), p);
    if k >= 0 {
        Some(ls[k].1)
    } else {
        None
    }
}

/// Whether directory `p` is still loading: its worker runs, or its listing is incomplete.
pub open spec fn loading(c: FsCacheView, p: Seq<char>) -> bool {
    selection_has(c.pending, p) || (lookup(c.listings, p) matches Some(l) && !l.complete)
}

/// Paths other than `p`, in order.
pub open spec fn without_path(s: Seq<Seq<char>>, p: Seq<char>) -> Seq<Seq<char>>
    decreases s.len(),
{
    if s.len() == 0 {
        Seq::empty()
    } else if same_path(s.last(), p) {
        without_path(s.drop_last(), p)
    } else {
        without_path(s.drop_last(), p).push(s.last())
    }
}

/// Listings of directories other than `p`, in order.
pub open spec fn without_listing(s: Seq<(Seq<char>, ListingView)>, p: Seq<char>) -> Seq<(Seq<char>, ListingView)>
    decreases s.len(),
{
    if s.len() == 0 {
        Seq::empty()
    } else if same_path(s.last().0, p) {
        without_listing(s.drop_last(), p)
    } else {
        without_listing(s.drop_last(), p).push(s.last())
    }
}

/// `ls` with the listing of `p` replaced by `l`, where `p` has one.
pub open spec fn with_listing(ls: Seq<(Seq<char>, ListingView)>, p: Seq<char>, l: ListingView) -> Seq<(Seq<char>, ListingView)> {
    let k = first_match(listing_keys(ls), p);
    if k >= 0 {
        ls.update(k, (ls[k].0, l))
    } else {
        ls
    }
}

/// `s` without its first path equal to `p`.
pub open spec fn without_first(s: Seq<Seq<char>>, p: Seq<char>) -> Seq<Seq<char>> {
    let k = first_match(s, p);
    if k >= 0 {
        s.remove(k)
    } else {
        s
    }
}

/// The cache once the worker of `p` has finished: its entries sorted folders first by name,
/// the listing complete, and `p` no longer pending.
pub open spec fn finished(c: FsCacheView, p: Seq<char>) -> FsCacheView {
    FsCacheView {
        listings: match lookup(c.listings, p) {
            Some(l) => with_listing(
                c.listings,
                p,
                ListingView { entries: sorted_by(l.entries, SortField::Name, SortOrder::Ascending), complete: true },
            ),
            None => c.listings,
        },
        pending: without_first(c.pending, p),
    }
}

/// The cache once entry `e` of directory `p` has arrived.
pub open spec fn with_entry(c: FsCacheView, p: Seq<char>, e: FileEntryView) -> FsCacheView {
    FsCacheView {
        listings: match lookup(c.listings, p) {
            Some(l) => with_listing(c.listings, p, ListingView { entries: l.entries.push(e), complete: l.complete }),
            None => c.listings,
        },
        pending: c.pending,
    }
}

/// The cache after the worker of `p` reported `evs`, in order; what follows the end of the
/// listing is not read.
pub open spec fn after_events(c: FsCacheView, p: Seq<char>, evs: Seq<ListingEvent>) -> FsCacheView
    decreases evs.len(),
{
    if evs.len() == 0 {
        c
    } else {
        match evs[0] {
            ListingEvent::Entry(e) => after_events(with_entry(c, p, e@), p, evs.drop_first()),
            _ => finished(c, p),
        }
    }
}

/// The cache after a request for the listing of `p`: unchanged when it is complete or its
/// worker runs; else an empty listing takes its place (or joins the end) and `p` is pending.
pub open spec fn requested(c: FsCacheView, p: Seq<char>) -> FsCacheView {
    if (lookup(c.listings, p) matches Some(l) && l.complete) || selection_has(c.pending, p) {
        c
    } else {
        let empty = ListingView { entries: Seq::empty(), complete: false };
        FsCacheView {
            listings: if lookup(c.listings, p) is Some {
                with_listing(c.listings, p, empty)
            } else {
                c.listings.push((p, empty))
            },
            pending: c.pending.push(p),
        }
    }
}

/// The cache once `p` is dropped.
pub open spec fn invalidated(c: FsCacheView, p: Seq<char>) -> FsCacheView {
    FsCacheView { listings: without_listing(c.listings, p), pending: without_path(c.pending, p) }
}

/// What became of one path the file watcher reported.
pub enum FileChange {
    /// The path exists; its entry, when it could be read.
    Present(String, Option<FileEntry>),
    /// The path no longer exists.
    Gone(String),
}

/// Index of the first entry of `es` at `p`, or -1.
pub open spec fn entry_index(es: Seq<FileEntryView>, p: Seq<char>) -> int
    decreases es.len(),
{
    if es.len() == 0 {
        -1
    } else {
        let k = entry_index(es.drop_last(), p);
        if k >= 0 {
            k
        } else if same_path(es.last().path, p) {
            es.len() - 1
        } else {
            -1
        }
    }
}

/// Entries of a directory after one reported change, and whether they changed. Paths whose
/// parent is not `dir` are ignored.
pub open spec fn changed_entries(es: Seq<FileEntryView>, dir: Seq<char>, ch: FileChange) -> (Seq<FileEntryView>, bool) {
    match ch {
        FileChange::Present(p, e) => if crate::paths::parent_of(p@) matches Some(q) && same_path(q, dir) {
            match e {
                Some(entry) => {
                    let k = entry_index(es, p@);
                    (if k >= 0 {
                        es.update(k, entry@)
                    } else {
                        es.push(entry@)
                    }, true)
                },
                None => (es, false),
            }
        } else {
            (es, false)
        },
        FileChange::Gone(p) => if crate::paths::parent_of(p@) matches Some(q) && same_path(q, dir) {
            let k = entry_index(es, p@);
            if k >= 0 {
                (es.remove(k), true)
            } else {
                (es, false)
            }
        } else {
            (es, false)
        },
    }
}

/// Entries after the changes `chs` in order, and whether any changed them.
pub open spec fn entries_after_changes(es: Seq<FileEntryView>, dir: Seq<char>, chs: Seq<FileChange>) -> (Seq<FileEntryView>, bool)
    decreases chs.len(),
{
    if chs.len() == 0 {
        (es, false)
    } else {
        let (before, any) = entries_after_changes(es, dir, chs.drop_last());
        let (after, this) = changed_entries(before, dir, chs.last());
        (after, any || this)
    }
}

/// The cache after the file watcher reported `chs` for `dir`: only a complete listing of
/// `dir` takes them, and its entries are sorted again when any changed.
pub open spec fn after_file_changes(c: FsCacheView, dir: Seq<char>, chs: Seq<FileChange>) -> (FsCacheView, bool) {
    match lookup(c.listings, dir) {
        Some(l) if l.complete => {
            let (es, any) = entries_after_changes(l.entries, dir, chs);
            if any {
                (FsCacheView {
                    listings: with_listing(
                        c.listings,
                        dir,
                        ListingView { entries: sorted_by(es, SortField::Name, SortOrder::Ascending), complete: true },
                    ),
                    pending: c.pending,
                }, true)
            } else {
                (c, false)
            }
        },
        _ => (c, false),
    }
}

/// The cache after each directory's batch of reports, in order.
pub open spec fn after_batches(c: FsCacheView, bs: Seq<(String, Vec<ListingEvent>)>) -> FsCacheView
    decreases bs.len(),
{
    if bs.len() == 0 {
        c
    } else {
        after_events(after_batches(c, bs.drop_last()), bs.last().0@, bs.last().1@)
    }
}

/// No directory is pending twice, and each pending directory has a listing.
pub open spec fn pending_wf(c: FsCacheView) -> bool {
    &&& forall|i: int, j: int| 0 <= i < j < c.pending.len() ==> !same_path(#[trigger] c.pending[i], #[trigger] c.pending[j])
    &&& forall|i: int| 0 <= i < c.pending.len() ==> #[trigger] lookup(c.listings, c.pending[i]) is Some
}

/// Whether directory `q` has a listing that is not complete yet.
pub open spec fn incomplete(c: FsCacheView, q: Seq<char>) -> bool {
    lookup(c.listings, q) matches Some(l) && !l.complete
}

/// A well-formed cache: `pending_wf`, and a directory is pending exactly while its listing is
/// incomplete.
pub open spec fn cache_wf(c: FsCacheView) -> bool {
    &&& pending_wf(c)
    &&& forall|q: Seq<char>|
        #![trigger selection_has(c.pending, q)]
        #![trigger lookup(c.listings, q)]
        selection_has(c.pending, q) == incomplete(c, q)
}

/// A directory is loading exactly while its listing is there and not complete.
pub proof fn law_loading_is_incomplete_listing(c: FsCacheView, p: Seq<char>)
    requires
        cache_wf(c),
    ensures
        loading(c, p) == (lookup(c.listings, p) matches Some(l) && !l.complete),
{
    assert(selection_has(c.pending, p) == incomplete(c, p));
}

proof fn lemma_with_listing_lookup(ls: Seq<(Seq<char>, ListingView)>, p: Seq<char>, l: ListingView, q: Seq<char>)
    ensures
        lookup(with_listing(ls, p, l), q) == (if lookup(ls, p) is Some && same_path(q, p) {
            Some(l)
        } else {
            lookup(ls, q)
        }),
{
    let ks = listing_keys(ls);
    lemma_first_match(ks, p);
    lemma_first_match(ks, q);
    lemma_with_listing(ls, p, l, q);
    if same_path(q, p) {
        lemma_lookup_same(ls, q, p);
        lemma_lookup_same(with_listing(ls, p, l), q, p);
    } else {
        let kp = first_match(ks, p);
        let kq = first_match(ks, q);
        if kp >= 0 && kq >= 0 {
            assert(kq != kp);
            assert(listing_keys(with_listing(ls, p, l)) =~= ks);
        }
    }
}

proof fn lemma_without_first(s: Seq<Seq<char>>, p: Seq<char>, q: Seq<char>)
    requires
        forall|i: int, j: int| 0 <= i < j < s.len() ==> !same_path(#[trigger] s[i], #[trigger] s[j]),
    ensures
        selection_has(without_first(s, p), q) == (selection_has(s, q) && !same_path(q, p)),
{
    let k = first_match(s, p);
    lemma_first_match(s, p);
    if k >= 0 {
        let r = s.remove(k);
        if selection_has(r, q) {
            let i = choose|i: int| 0 <= i < r.len() && same_path(#[trigger] r[i], q);
            let i0 = if i < k { i } else { i + 1 };
            assert(r[i] == s[i0]);
            if same_path(q, p) {
                if i0 < k {
                    assert(!same_path(s[i0], s[k]));
                } else {
                    assert(!same_path(s[k], s[i0]));
                }
            }
        }
        if selection_has(s, q) && !same_path(q, p) {
            let i = choose|i: int| 0 <= i < s.len() && same_path(#[trigger] s[i], q);
            assert(i != k);
            let i1 = if i < k { i } else { i - 1 };
            assert(r[i1] == s[i]);
        }
    } else {
        if selection_has(s, q) && same_path(q, p) {
            let i = choose|i: int| 0 <= i < s.len() && same_path(#[trigger] s[i], q);
            assert(same_path(s[i], p));
        }
    }
}



proof fn lemma_lookup_push(s: Seq<(Seq<char>, ListingView)>, x: (Seq<char>, ListingView), q: Seq<char>)
    ensures
        lookup(s.push(x), q) == (if lookup(s, q) is Some {
            lookup(s, q)
        } else if same_path(x.0, q) {
            Some(x.1)
        } else {
            None
        }),
{
    let ks = listing_keys(s);
    assert(listing_keys(s.push(x)) =~= ks.push(x.0));
    assert(ks.push(x.0).drop_last() =~= ks);
    lemma_first_match(ks, q);
}

proof fn lemma_without_listing(s: Seq<(Seq<char>, ListingView)>, p: Seq<char>, q: Seq<char>)
    ensures
        lookup(without_listing(s, p), q) == (if same_path(q, p) {
            None
        } else {
            lookup(s, q)
        }),
    decreases s.len(),
{
    if s.len() == 0 {
        assert(listing_keys(s) =~= Seq::<Seq<char>>::empty());
    } else {
        let d = s.drop_last();
        let x = s.last();
        assert(d.push(x) =~= s);
        lemma_without_listing(d, p, q);
        lemma_lookup_push(d, x, q);
        if !same_path(x.0, p) {
            lemma_lookup_push(without_listing(d, p), x, q);
        }
    }
}

proof fn lemma_without_path(s: Seq<Seq<char>>, p: Seq<char>, q: Seq<char>)
    ensures
        selection_has(without_path(s, p), q) == (selection_has(s, q) && !same_path(q, p)),
    decreases s.len(),
{
    if s.len() > 0 {
        let d = s.drop_last();
        let x = s.last();
        assert(d.push(x) =~= s);
        lemma_without_path(d, p, q);
        lemma_has_push(d, x, q);
        if !same_path(x, p) {
            lemma_has_push(without_path(d, p), x, q);
        }
    }
}

proof fn lemma_with_listing(ls: Seq<(Seq<char>, ListingView)>, p: Seq<char>, l: ListingView, q: Seq<char>)
    ensures
        listing_keys(with_listing(ls, p, l)) == listing_keys(ls),
        (lookup(with_listing(ls, p, l), q) is Some) == (lookup(ls, q) is Some),
        lookup(with_listing(ls, p, l), p) == (if lookup(ls, p) is Some {
            Some(l)
        } else {
            None
        }),
{
    let ks = listing_keys(ls);
    lemma_first_match(ks, p);
    lemma_first_match(ks, q);
    assert(listing_keys(with_listing(ls, p, l)) =~= ks);
}

proof fn lemma_with_entry_wf(c: FsCacheView, p: Seq<char>, e: FileEntryView)
    requires
        cache_wf(c),
    ensures
        cache_wf(with_entry(c, p, e)),
{
    let d = with_entry(c, p, e);
    assert forall|i: int| 0 <= i < d.pending.len() implies #[trigger] lookup(d.listings, d.pending[i]) is Some by {
        if let Some(l) = lookup(c.listings, p) {
            lemma_with_listing(c.listings, p, ListingView { entries: l.entries.push(e), complete: l.complete }, c.pending[i]);
        }
    }
    assert forall|q: Seq<char>|
        #![trigger selection_has(d.pending, q)]
        #![trigger lookup(d.listings, q)]
        selection_has(d.pending, q) == incomplete(d, q) by {
        assert(selection_has(c.pending, q) == incomplete(c, q));
        if let Some(l) = lookup(c.listings, p) {
            lemma_with_listing_lookup(c.listings, p, ListingView { entries: l.entries.push(e), complete: l.complete }, q);
            if same_path(q, p) {
                lemma_lookup_same(c.listings, q, p);
            }
        }
    }
}

proof fn lemma_finished(c: FsCacheView, p: Seq<char>)
    requires
        cache_wf(c),
    ensures
        cache_wf(finished(c, p)),
        !selection_has(finished(c, p).pending, p),
        selection_has(c.pending, p) ==> lookup(finished(c, p).listings, p) == Some(ListingView {
            entries: sorted_by(lookup(c.listings, p)->0.entries, SortField::Name, SortOrder::Ascending),
            complete: true,
        }),
{
    let d = finished(c, p);
    let k = first_match(c.pending, p);
    lemma_first_match(c.pending, p);
    let sorted = match lookup(c.listings, p) {
        Some(l) => ListingView { entries: sorted_by(l.entries, SortField::Name, SortOrder::Ascending), complete: true },
        None => ListingView { entries: Seq::empty(), complete: true },
    };
    if k >= 0 {
        assert(d.pending =~= c.pending.remove(k));
        assert forall|i: int, j: int| 0 <= i < j < d.pending.len() implies !same_path(
            #[trigger] d.pending[i],
            #[trigger] d.pending[j],
        ) by {
            let i0 = if i < k { i } else { i + 1 };
            let j0 = if j < k { j } else { j + 1 };
            assert(d.pending[i] == c.pending[i0]);
            assert(d.pending[j] == c.pending[j0]);
        }
        assert forall|i: int| 0 <= i < d.pending.len() implies #[trigger] lookup(d.listings, d.pending[i]) is Some by {
            let i0 = if i < k { i } else { i + 1 };
            assert(d.pending[i] == c.pending[i0]);
            assert(lookup(c.listings, c.pending[i0]) is Some);
            if lookup(c.listings, p) is Some {
                lemma_with_listing(c.listings, p, sorted, c.pending[i0]);
            }
        }
        if selection_has(d.pending, p) {
            let j = choose|j: int| 0 <= j < d.pending.len() && same_path(#[trigger] d.pending[j], p);
            let j0 = if j < k { j } else { j + 1 };
            assert(d.pending[j] == c.pending[j0]);
            if j0 < k {
                assert(!same_path(c.pending[j0], c.pending[k]));
            } else {
                assert(!same_path(c.pending[k], c.pending[j0]));
            }
        }
        assert(lookup(c.listings, c.pending[k]) is Some);
        lemma_lookup_same(c.listings, c.pending[k], p);
        lemma_with_listing(c.listings, p, sorted, p);
    } else {
        assert(d.pending == c.pending);
        assert forall|i: int| 0 <= i < d.pending.len() implies #[trigger] lookup(d.listings, d.pending[i]) is Some by {
            if lookup(c.listings, p) is Some {
                lemma_with_listing(c.listings, p, sorted, c.pending[i]);
            }
        }
    }
    assert forall|q: Seq<char>|
        #![trigger selection_has(d.pending, q)]
        #![trigger lookup(d.listings, q)]
        selection_has(d.pending, q) == incomplete(d, q) by {
        assert(selection_has(c.pending, q) == incomplete(c, q));
        lemma_without_first(c.pending, p, q);
        if lookup(c.listings, p) is Some {
            lemma_with_listing_lookup(c.listings, p, sorted, q);
        } else if same_path(q, p) {
            lemma_lookup_same(c.listings, q, p);
        }
    }
}

proof fn lemma_lookup_same(ls: Seq<(Seq<char>, ListingView)>, p: Seq<char>, q: Seq<char>)
    requires
        same_path(p, q),
    ensures
        lookup(ls, p) == lookup(ls, q),
    decreases ls.len(),
{
    if ls.len() > 0 {
        let d = ls.drop_last();
        assert(d.push(ls.last()) =~= ls);
        lemma_lookup_same(d, p, q);
        lemma_lookup_push(d, ls.last(), p);
        lemma_lookup_push(d, ls.last(), q);
    } else {
        assert(listing_keys(ls) =~= Seq::<Seq<char>>::empty());
    }
}

proof fn lemma_after_events_wf(c: FsCacheView, p: Seq<char>, evs: Seq<ListingEvent>)
    requires
        cache_wf(c),
    ensures
        cache_wf(after_events(c, p, evs)),
    decreases evs.len(),
{
    if evs.len() > 0 {
        match evs[0] {
            ListingEvent::Entry(e) => {
                lemma_with_entry_wf(c, p, e@);
                lemma_after_events_wf(with_entry(c, p, e@), p, evs.drop_first());
            },
            _ => {
                lemma_finished(c, p);
            },
        }
    }
}

/// The entries carried by `evs`, in order.
pub open spec fn reported_entries(evs: Seq<ListingEvent>) -> Seq<FileEntryView>
    decreases evs.len(),
{
    if evs.len() == 0 {
        Seq::empty()
    } else {
        match evs[0] {
            ListingEvent::Entry(e) => seq![e@] + reported_entries(evs.drop_first()),
            _ => reported_entries(evs.drop_first()),
        }
    }
}

/// A pending directory whose worker reports some entries and then the end of the listing
/// ends up complete and no longer loading, holding the entries it had and the reported ones,
/// sorted folders first by name.
pub proof fn law_reported_listing_completes(c: FsCacheView, p: Seq<char>, evs: Seq<ListingEvent>, n: int)
    requires
        cache_wf(c),
        selection_has(c.pending, p),
        0 <= n < evs.len(),
        forall|i: int| 0 <= i < n ==> #[trigger] evs[i] is Entry,
        !(evs[n] is Entry),
    ensures
        lookup(after_events(c, p, evs).listings, p) == Some(ListingView {
            entries: sorted_by(
                lookup(c.listings, p)->0.entries + reported_entries(evs.take(n)),
                SortField::Name,
                SortOrder::Ascending,
            ),
            complete: true,
        }),
        !loading(after_events(c, p, evs), p),
        cache_wf(after_events(c, p, evs)),
    decreases n,
{
    let j = choose|j: int| 0 <= j < c.pending.len() && same_path(#[trigger] c.pending[j], p);
    assert(lookup(c.listings, c.pending[j]) is Some);
    lemma_lookup_same(c.listings, c.pending[j], p);
    let old_entries = lookup(c.listings, p)->0.entries;
    if n == 0 {
        assert(evs.take(0) =~= Seq::<ListingEvent>::empty());
        assert(old_entries + Seq::<FileEntryView>::empty() =~= old_entries);
        lemma_finished(c, p);
    } else {
        let e = evs[0]->Entry_0;
        assert(evs[0] is Entry);
        let l = lookup(c.listings, p)->0;
        let d = with_entry(c, p, e@);
        lemma_with_entry_wf(c, p, e@);
        lemma_with_listing(c.listings, p, ListingView { entries: l.entries.push(e@), complete: l.complete }, p);
        assert(d.pending == c.pending);
        let rest = evs.drop_first();
        assert forall|i: int| 0 <= i < n - 1 implies #[trigger] rest[i] is Entry by {
            assert(rest[i] == evs[i + 1]);
        }
        assert(rest[n - 1] == evs[n]);
        law_reported_listing_completes(d, p, rest, n - 1);
        assert(evs.take(n).drop_first() =~= rest.take(n - 1));
        assert(evs.take(n)[0] == evs[0]);
        assert(reported_entries(evs.take(n)) == seq![e@] + reported_entries(rest.take(n - 1)));
        assert(l.entries.push(e@) + reported_entries(rest.take(n - 1)) =~= old_entries + reported_entries(
            evs.take(n),
        ));
    }
}

proof fn lemma_without_path_wf(c: FsCacheView, p: Seq<char>)
    requires
        pending_wf(c),
    ensures
        pending_wf(FsCacheView { listings: without_listing(c.listings, p), pending: without_path(c.pending, p) }),
    decreases c.pending.len(),
{
    let d = FsCacheView { listings: without_listing(c.listings, p), pending: without_path(c.pending, p) };
    if c.pending.len() > 0 {
        let pre = c.pending.drop_last();
        let x = c.pending.last();
        let cp = FsCacheView { listings: c.listings, pending: pre };
        assert forall|i: int, j: int| 0 <= i < j < pre.len() implies !same_path(#[trigger] pre[i], #[trigger] pre[j]) by {
            assert(pre[i] == c.pending[i] && pre[j] == c.pending[j]);
        }
        assert forall|i: int| 0 <= i < pre.len() implies #[trigger] lookup(cp.listings, pre[i]) is Some by {
            assert(pre[i] == c.pending[i]);
        }
        lemma_without_path_wf(cp, p);
        assert(pre.push(x) =~= c.pending);
        let wp = without_path(pre, p);
        if !same_path(x, p) {
            assert(d.pending == wp.push(x));
            lemma_without_listing(c.listings, p, x);
            assert(lookup(c.listings, c.pending[c.pending.len() - 1]) is Some);
            assert forall|i: int| 0 <= i < d.pending.len() implies #[trigger] lookup(d.listings, d.pending[i]) is Some by {
                if i < wp.len() {
                    assert(d.pending[i] == wp[i]);
                }
            }
            assert forall|i: int, j: int| 0 <= i < j < d.pending.len() implies !same_path(
                #[trigger] d.pending[i],
                #[trigger] d.pending[j],
            ) by {
                assert(d.pending[i] == wp[i]);
                if j < wp.len() {
                    assert(d.pending[j] == wp[j]);
                } else if same_path(wp[i], x) {
                    assert(selection_has(wp, x));
                    lemma_without_path(pre, p, x);
                    let k = choose|k: int| 0 <= k < pre.len() && same_path(#[trigger] pre[k], x);
                    assert(c.pending[k] == pre[k]);
                    assert(!same_path(c.pending[k], c.pending[c.pending.len() - 1]));
                }
            }
        } else {
            assert(d.pending == wp);
        }
    } else {
        assert(d.pending =~= Seq::<Seq<char>>::empty());
    }
}

fn key_position(listings: &Vec<(String, DirectoryListing)>, path: &str) -> (r: Option<usize>)
    ensures
        ({
            let keys = listing_keys(listings@.map_values(|e: (String, DirectoryListing)| (e.0@, e.1@)));
            match r {
                Some(i) => i == first_match(keys, path@) && i < listings.len(),
                None => first_match(keys, path@) == -1,
            }
        }),
{
    let ghost keys = listing_keys(listings@.map_values(|e: (String, DirectoryListing)| (e.0@, e.1@)));
    proof {
        lemma_first_match(keys, path@);
    }
    let mut i: usize = 0;
    while i < listings.len()
        invariant
            i <= listings.len(),
            keys == listing_keys(listings@.map_values(|e: (String, DirectoryListing)| (e.0@, e.1@))),
            keys.len() == listings.len(),
            -1 <= first_match(keys, path@) < keys.len(),
            forall|k: int| 0 <= k < keys.len() && (first_match(keys, path@) == -1 || k < first_match(keys, path@))
                ==> !same_path(#[trigger] keys[k], path@),
            first_match(keys, path@) >= 0 ==> same_path(keys[first_match(keys, path@)], path@),
            first_match(keys, path@) == -1 || first_match(keys, path@) >= i,
        decreases listings.len() - i,
    {
        assert(keys[i as int] == listings@[i as int].0@);
        if paths_equal(listings[i].0.as_str(), path) {
            return Some(i);
        }
        i = i + 1;
    }
    None
}

fn entry_position_in(entries: &Vec<FileEntry>, path: &str) -> (r: Option<usize>)
    ensures
        match r {
            Some(i) => i == entry_index(entry_views(entries@), path@),
            None => entry_index(entry_views(entries@), path@) == -1,
        },
{
    let ghost es = entry_views(entries@);
    proof {
        lemma_entry_index(es, path@);
    }
    let mut i: usize = 0;
    while i < entries.len()
        invariant
            i <= entries.len(),
            es == entry_views(entries@),
            -1 <= entry_index(es, path@) < es.len(),
            forall|k: int| 0 <= k < es.len() && (entry_index(es, path@) == -1 || k < entry_index(es, path@))
                ==> !same_path(#[trigger] es[k].path, path@),
            entry_index(es, path@) >= 0 ==> same_path(es[entry_index(es, path@)].path, path@),
            entry_index(es, path@) == -1 || entry_index(es, path@) >= i,
        decreases entries.len() - i,
    {
        assert(es[i as int] == entries@[i as int]@);
        if paths_equal(entries[i].path.as_str(), path) {
            assert(same_path(es[i as int].path, path@));
            return Some(i);
        }
        i = i + 1;
    }
    None
}

proof fn lemma_entry_index(es: Seq<FileEntryView>, p: Seq<char>)
    ensures
        -1 <= entry_index(es, p) < es.len(),
        entry_index(es, p) >= 0 ==> same_path(es[entry_index(es, p)].path, p),
        forall|k: int| 0 <= k < es.len() && (entry_index(es, p) == -1 || k < entry_index(es, p))
            ==> !same_path(#[trigger] es[k].path, p),
    decreases es.len(),
{
    if es.len() > 0 {
        let d = es.drop_last();
        lemma_entry_index(d, p);
        assert forall|k: int| 0 <= k < es.len() && (entry_index(es, p) == -1 || k < entry_index(es, p))
            implies !same_path(#[trigger] es[k].path, p) by {
            if k < d.len() {
                assert(es[k] == d[k]);
            }
        }
        if entry_index(d, p) >= 0 {
            assert(es[entry_index(d, p)] == d[entry_index(d, p)]);
        }
    }
}

proof fn lemma_no_change(es: Seq<FileEntryView>, dir: Seq<char>, chs: Seq<FileChange>)
    ensures
        !entries_after_changes(es, dir, chs).1 ==> entries_after_changes(es, dir, chs).0 == es,
    decreases chs.len(),
{
    if chs.len() > 0 {
        lemma_no_change(es, dir, chs.drop_last());
    }
}

fn apply_one_change(entries: &mut Vec<FileEntry>, dir: &str, change: &FileChange) -> (changed: bool)
    ensures
        (entry_views(final(entries)@), changed) == changed_entries(entry_views(old(entries)@), dir@, *change),
{
    let ghost es = entry_views(entries@);
    let (path, entry, present) = match change {
        FileChange::Present(p, e) => (p, e, true),
        FileChange::Gone(p) => (p, &None, false),
    };
    let in_dir = match crate::paths::parent_path(path.as_str()) {
        Some(q) => paths_equal(q.as_str(), dir),
        None => false,
    };
    if !in_dir {
        return false;
    }
    proof {
        lemma_entry_index(es, path@);
    }
    let k = entry_position_in(entries, path.as_str());
    if present {
        match entry {
            Some(e) => {
                match k {
                    Some(i) => {
                        entries.set(i, e.duplicate());
                        assert(entry_views(entries@) =~= es.update(i as int, e@));
                    },
                    None => {
                        entries.push(e.duplicate());
                        assert(entry_views(entries@) =~= es.push(e@));
                    },
                }
                true
            },
            None => false,
        }
    } else {
        match k {
            Some(i) => {
                entries.remove(i);
                assert(entry_views(entries@) =~= es.remove(i as int));
                true
            },
            None => false,
        }
    }
}

impl FsCache {
    /// An empty cache.
    pub fn new() -> (r: FsCache)
        ensures
            r@.listings.len() == 0,
            r@.pending.len() == 0,
            cache_wf(r@),
    {
        let r = FsCache { listings: Vec::new(), pending: Vec::new() };
        assert(r@.listings =~= Seq::<(Seq<char>, ListingView)>::empty());
        assert(r@.pending =~= Seq::<Seq<char>>::empty());
        r
    }

    /// The listing cached for `path`.
    pub fn listing(&self, path: &str) -> (r: Option<&DirectoryListing>)
        ensures
            match r {
                Some(l) => lookup(self@.listings, path@) == Some(l@),
                None => lookup(self@.listings, path@) is None,
            },
    {
        match key_position(&self.listings, path) {
            Some(i) => Some(&self.listings[i].1),
            None => None,
        }
    }

    /// Whether `path` is still loading.
    pub fn is_listing_loading(&self, path: &str) -> (r: bool)
        ensures
            r == loading(self@, path@),
            cache_wf(self@) ==> r == (lookup(self@.listings, path@) matches Some(l) && !l.complete),
    {
        proof {
            lemma_first_match(self.pending.deep_view(), path@);
            if cache_wf(self@) {
                law_loading_is_incomplete_listing(self@, path@);
            }
        }
        if position_in(&self.pending, path).is_some() {
            return true;
        }
        match self.listing(path) {
            Some(l) => !l.complete,
            None => false,
        }
    }

    /// Asks for the listing of `path`. Unless it is complete or its worker already runs, an
    /// empty listing is put in place and `path` becomes pending; `true` then, and the caller
    /// starts the worker.
    pub fn request_listing(&mut self, path: String) -> (start: bool)
        ensures
            start == (!(lookup(old(self)@.listings, path@) matches Some(l) && l.complete)
                && !selection_has(old(self)@.pending, path@)),
            final(self)@ == requested(old(self)@, path@),
            !start ==> final(self)@ == old(self)@,
            start ==> final(self)@.pending == old(self)@.pending.push(path@),
            start ==> lookup(final(self)@.listings, path@) == Some(
                ListingView { entries: Seq::empty(), complete: false },
            ),
            start ==> forall|q: Seq<char>| !same_path(q, path@) ==> #[trigger] lookup(final(self)@.listings, q)
                == lookup(old(self)@.listings, q),
            loading(final(self)@, path@) || (lookup(final(self)@.listings, path@) matches Some(l) && l.complete),
            cache_wf(old(self)@) ==> cache_wf(final(self)@),
    {
        proof {
            lemma_first_match(self.pending.deep_view(), path@);
        }
        let existing = key_position(&self.listings, path.as_str());
        match existing {
            Some(i) => {
                assert(self@.listings[i as int] == (self.listings@[i as int].0@, self.listings@[i as int].1@));
                if self.listings[i].1.complete {
                    return false;
                }
            },
            None => {},
        }
        if position_in(&self.pending, path.as_str()).is_some() {
            assert(selection_has(self@.pending, path@));
            return false;
        }
        let ghost before = self@;
        let ghost keys = listing_keys(before.listings);
        match existing {
            Some(i) => {
                let (k, _) = self.listings.remove(i);
                self.listings.insert(i, (k, DirectoryListing::new()));
                proof {
                    let after = self@.listings;
                    assert(after =~= before.listings.update(
                        i as int,
                        (before.listings[i as int].0, ListingView { entries: Seq::empty(), complete: false }),
                    ));
                    assert(listing_keys(after) =~= keys);
                    lemma_first_match(keys, path@);
                    assert forall|q: Seq<char>| !same_path(q, path@) implies #[trigger] lookup(after, q)
                        == lookup(before.listings, q) by {
                        lemma_first_match(keys, q);
                    }
                }
            },
            None => {
                let key = copy_string(&path);
                self.listings.push((key, DirectoryListing::new()));
                proof {
                    let after = self@.listings;
                    assert(after =~= before.listings.push(
                        (path@, ListingView { entries: Seq::empty(), complete: false }),
                    ));
                    assert(listing_keys(after) =~= keys.push(path@));
                    assert(keys.push(path@).drop_last() =~= keys);
                    assert forall|q: Seq<char>| !same_path(q, path@) implies #[trigger] lookup(after, q)
                        == lookup(before.listings, q) by {
                        lemma_first_match(keys, q);
                    }
                }
            },
        }
        self.pending.push(path);
        proof {
            assert(self@.pending =~= before.pending.push(path@));
            lemma_has_push(before.pending, path@, path@);
            if cache_wf(before) {
                let c = self@;
                assert forall|i: int| 0 <= i < c.pending.len() implies #[trigger] lookup(c.listings, c.pending[i]) is Some by {
                    if i < before.pending.len() {
                        assert(c.pending[i] == before.pending[i]);
                        if same_path(c.pending[i], path@) {
                            assert(selection_has(before.pending, path@));
                        }
                    }
                }
                assert forall|i: int, j: int| 0 <= i < j < c.pending.len() implies !same_path(
                    #[trigger] c.pending[i],
                    #[trigger] c.pending[j],
                ) by {
                    if j == before.pending.len() {
                        assert(c.pending[i] == before.pending[i]);
                        if same_path(c.pending[i], c.pending[j]) {
                            assert(selection_has(before.pending, path@));
                        }
                    }
                }
                assert(lookup(c.listings, path@) == Some(ListingView { entries: Seq::empty(), complete: false }));
                assert forall|q: Seq<char>|
                    #![trigger selection_has(c.pending, q)]
                    #![trigger lookup(c.listings, q)]
                    selection_has(c.pending, q) == incomplete(c, q) by {
                    assert(selection_has(before.pending, q) == incomplete(before, q));
                    lemma_has_push(before.pending, path@, q);
                    if same_path(q, path@) {
                        lemma_lookup_same(c.listings, q, path@);
                    } else {
                        assert(lookup(c.listings, q) == lookup(before.listings, q));
                    }
                }
            }
        }
        true
    }

    /// Drops the listing of `path` and forgets its worker.
    pub fn invalidate(&mut self, path: &str)
        ensures
            final(self)@ == invalidated(old(self)@, path@),
            lookup(final(self)@.listings, path@) is None,
            !loading(final(self)@, path@),
            forall|q: Seq<char>| !same_path(q, path@) ==> #[trigger] lookup(final(self)@.listings, q)
                == lookup(old(self)@.listings, q),
            forall|q: Seq<char>| !same_path(q, path@) ==> #[trigger] loading(final(self)@, q)
                == loading(old(self)@, q),
            cache_wf(old(self)@) ==> cache_wf(final(self)@),
    {
        let ghost ls0 = self@.listings;
        let ghost j: int = 0;
        let mut i: usize = 0;
        while i < self.listings.len()
            invariant
                0 <= j <= ls0.len(),
                i <= self.listings.len(),
                self@.listings == without_listing(ls0.take(j), path@) + ls0.skip(j),
                i == without_listing(ls0.take(j), path@).len(),
                self.pending == old(self).pending,
            decreases ls0.len() - j,
        {
            let ghost cur = self@.listings;
            let ghost w = without_listing(ls0.take(j), path@);
            assert(cur[i as int] == ls0[j]);
            assert(cur[i as int] == (self.listings@[i as int].0@, self.listings@[i as int].1@));
            assert(ls0.take(j + 1).drop_last() =~= ls0.take(j));
            if paths_equal(self.listings[i].0.as_str(), path) {
                self.listings.remove(i);
                proof {
                    assert(self@.listings =~= cur.remove(i as int));
                    assert(cur.remove(i as int) =~= w + ls0.skip(j + 1));
                }
            } else {
                proof {
                    assert(cur =~= w.push(ls0[j]) + ls0.skip(j + 1));
                }
                i = i + 1;
            }
            proof {
                j = j + 1;
            }
        }
        proof {
            assert(j == ls0.len());
            assert(ls0.take(j) =~= ls0);
        }
        let ghost ps0 = self@.pending;
        let ghost j2: int = 0;
        let mut k: usize = 0;
        while k < self.pending.len()
            invariant
                0 <= j2 <= ps0.len(),
                k <= self.pending.len(),
                self@.pending == without_path(ps0.take(j2), path@) + ps0.skip(j2),
                k == without_path(ps0.take(j2), path@).len(),
                self@.listings == without_listing(ls0, path@),
            decreases ps0.len() - j2,
        {
            let ghost cur = self@.pending;
            let ghost w = without_path(ps0.take(j2), path@);
            assert(cur[k as int] == ps0[j2]);
            assert(cur[k as int] == self.pending@[k as int]@);
            assert(ps0.take(j2 + 1).drop_last() =~= ps0.take(j2));
            if paths_equal(self.pending[k].as_str(), path) {
                self.pending.remove(k);
                proof {
                    assert(self@.pending =~= cur.remove(k as int));
                    assert(cur.remove(k as int) =~= w + ps0.skip(j2 + 1));
                }
            } else {
                proof {
                    assert(cur =~= w.push(ps0[j2]) + ps0.skip(j2 + 1));
                }
                k = k + 1;
            }
            proof {
                j2 = j2 + 1;
            }
        }
        proof {
            assert(j2 == ps0.len());
            assert(ps0.take(j2) =~= ps0);
            lemma_without_listing(ls0, path@, path@);
            lemma_without_path(ps0, path@, path@);
            assert forall|q: Seq<char>| !same_path(q, path@) implies #[trigger] lookup(self@.listings, q)
                == lookup(ls0, q) && loading(self@, q) == loading(old(self)@, q) by {
                lemma_without_listing(ls0, path@, q);
                lemma_without_path(ps0, path@, q);
            }
            if cache_wf(old(self)@) {
                lemma_without_path_wf(old(self)@, path@);
                let c = old(self)@;
                let d = self@;
                assert forall|q: Seq<char>|
                    #![trigger selection_has(d.pending, q)]
                    #![trigger lookup(d.listings, q)]
                    selection_has(d.pending, q) == incomplete(d, q) by {
                    assert(selection_has(c.pending, q) == incomplete(c, q));
                    lemma_without_listing(ls0, path@, q);
                    lemma_without_path(ps0, path@, q);
                }
            }
        }
    }

    /// Applies what the worker of `path` reported, in order: an entry joins the listing; the
    /// end of the listing (or a worker that went away) sorts the entries, marks the listing
    /// complete and takes `path` off the pending list. `true` when anything was reported.
    pub fn apply_listing_events(&mut self, path: &str, events: &Vec<ListingEvent>) -> (changed: bool)
        ensures
            changed == (events.len() > 0),
            final(self)@ == after_events(old(self)@, path@, events@),
            cache_wf(old(self)@) ==> cache_wf(final(self)@),
    {
        proof {
            if cache_wf(old(self)@) {
                lemma_after_events_wf(old(self)@, path@, events@);
            }
        }
        let mut i: usize = 0;
        assert(events@.skip(0) =~= events@);
        while i < events.len()
            invariant
                i <= events.len(),
                after_events(self@, path@, events@.skip(i as int)) == after_events(old(self)@, path@, events@),
                cache_wf(old(self)@) ==> cache_wf(after_events(old(self)@, path@, events@)),
            decreases events.len() - i,
        {
            let ghost rest = events@.skip(i as int);
            assert(rest[0] == events@[i as int]);
            assert(rest.drop_first() =~= events@.skip(i + 1));
            proof {
                lemma_first_match(listing_keys(self@.listings), path@);
            }
            match &events[i] {
                ListingEvent::Entry(e) => {
                    match key_position(&self.listings, path) {
                        Some(k) => {
                            let ghost before = self@.listings;
                            let (key, mut l) = self.listings.remove(k);
                            l.entries.push(e.duplicate());
                            self.listings.insert(k, (key, l));
                            proof {
                                assert(entry_views(l.entries@) =~= before[k as int].1.entries.push(e@));
                                assert(self@.listings =~= before.update(
                                    k as int,
                                    (before[k as int].0, ListingView {
                                        entries: before[k as int].1.entries.push(e@),
                                        complete: before[k as int].1.complete,
                                    }),
                                ));
                            }
                        },
                        None => {},
                    }
                    i = i + 1;
                },
                _ => {
                    self.finish_listing(path);
                    return true;
                },
            }
        }
        assert(events@.skip(i as int).len() == 0);
        i > 0
    }

    fn finish_listing(&mut self, path: &str)
        ensures
            final(self)@ == finished(old(self)@, path@),
    {
        proof {
            lemma_first_match(listing_keys(self@.listings), path@);
        }
        match key_position(&self.listings, path) {
            Some(k) => {
                let ghost before = self@.listings;
                let (key, l) = self.listings.remove(k);
                let entries = sort_entries_by(l.entries, SortField::Name, SortOrder::Ascending);
                self.listings.insert(k, (key, DirectoryListing { entries, complete: true }));
                proof {
                    assert(self@.listings =~= before.update(
                        k as int,
                        (before[k as int].0, ListingView {
                            entries: sorted_by(before[k as int].1.entries, SortField::Name, SortOrder::Ascending),
                            complete: true,
                        }),
                    ));
                }
            },
            None => {},
        }
        proof {
            lemma_first_match(self@.pending, path@);
        }
        match position_in(&self.pending, path) {
            Some(k) => {
                let ghost before = self@.pending;
                self.pending.remove(k);
                assert(self@.pending =~= before.remove(k as int));
            },
            None => {},
        }
    }

    /// Applies the reports of each directory's worker, batch by batch. `true` when anything
    /// was reported.
    pub fn poll(&mut self, received: &Vec<(String, Vec<ListingEvent>)>) -> (changed: bool)
        ensures
            changed == exists|i: int| 0 <= i < received.len() && #[trigger] received@[i].1.len() > 0,
            final(self)@ == after_batches(old(self)@, received@),
            cache_wf(old(self)@) ==> cache_wf(final(self)@),
    {
        let mut changed = false;
        let mut i: usize = 0;
        while i < received.len()
            invariant
                i <= received.len(),
                self@ == after_batches(old(self)@, received@.take(i as int)),
                cache_wf(old(self)@) ==> cache_wf(self@),
                changed == exists|k: int| 0 <= k < i && #[trigger] received@[k].1.len() > 0,
            decreases received.len() - i,
        {
            assert(received@.take(i + 1).drop_last() =~= received@.take(i as int));
            let step = self.apply_listing_events(received[i].0.as_str(), &received[i].1);
            changed = changed || step;
            i = i + 1;
        }
        assert(received@.take(i as int) =~= received@);
        changed
    }

    /// Applies what the file watcher reported for `dir`; `true` when the listing changed.
    pub fn apply_file_changes(&mut self, dir: &str, changes: &Vec<FileChange>) -> (changed: bool)
        ensures
            (final(self)@, changed) == after_file_changes(old(self)@, dir@, changes@),
            cache_wf(old(self)@) ==> cache_wf(final(self)@),
    {
        let k = match key_position(&self.listings, dir) {
            Some(k) => k,
            None => {
                return false;
            },
        };
        assert(self@.listings[k as int] == (self.listings@[k as int].0@, self.listings@[k as int].1@));
        if !self.listings[k].1.complete {
            return false;
        }
        let ghost before = self@.listings;
        let ghost es0 = before[k as int].1.entries;
        let (key, l) = self.listings.remove(k);
        let mut entries = l.entries;
        let mut any = false;
        let mut i: usize = 0;
        assert(changes@.take(0) =~= Seq::<FileChange>::empty());
        while i < changes.len()
            invariant
                i <= changes.len(),
                (entry_views(entries@), any) == entries_after_changes(es0, dir@, changes@.take(i as int)),
            decreases changes.len() - i,
        {
            assert(changes@.take(i + 1).drop_last() =~= changes@.take(i as int));
            assert(changes@.take(i + 1).last() == changes@[i as int]);
            let this = apply_one_change(&mut entries, dir, &changes[i]);
            any = any || this;
            i = i + 1;
        }
        assert(changes@.take(i as int) =~= changes@);
        if any {
            let sorted = sort_entries_by(entries, SortField::Name, SortOrder::Ascending);
            self.listings.insert(k, (key, DirectoryListing { entries: sorted, complete: true }));
            proof {
                let lv = ListingView {
                    entries: sorted_by(entry_views(entries@), SortField::Name, SortOrder::Ascending),
                    complete: true,
                };
                assert(self@.listings =~= before.update(k as int, (before[k as int].0, lv)));
                lemma_with_listing(before, dir@, lv, dir@);
                if cache_wf(old(self)@) {
                    assert forall|j: int| 0 <= j < self@.pending.len() implies #[trigger] lookup(self@.listings, self@.pending[j]) is Some by {
                        lemma_with_listing(before, dir@, lv, self@.pending[j]);
                    }
                    let c = old(self)@;
                    let d = self@;
                    assert forall|q: Seq<char>|
                        #![trigger selection_has(d.pending, q)]
                        #![trigger lookup(d.listings, q)]
                        selection_has(d.pending, q) == incomplete(d, q) by {
                        assert(selection_has(c.pending, q) == incomplete(c, q));
                        lemma_with_listing_lookup(before, dir@, lv, q);
                        if same_path(q, dir@) {
                            lemma_lookup_same(before, q, dir@);
                        }
                    }
                }
            }
        } else {
            self.listings.insert(k, (key, DirectoryListing { entries, complete: true }));
            proof {
                lemma_no_change(es0, dir@, changes@);
                assert(self@.listings =~= before);
            }
        }
        any
    }
}

} // verus!
