//! The mount points offered as drives: the root always among them, sorted component by
//! component, each once.
use vstd::prelude::*;

use crate::entries::{lemma_text_order_antisymmetric, lemma_text_order_range, lemma_text_order_transitive, text_order, text_order_exec};
use crate::paths::{is_absolute_path, parse_path, path_parts, paths_equal, same_path};
use crate::text::{chars_of, copy_string, copy_strings, string_from_chars};
use crate::view::{lemma_first_match, lemma_has_push, position_in, selection_has};

verus! {

/// Order of two part lists: part by part by code point, a list before its extensions.
pub open spec fn parts_order(a: Seq<Seq<char>>, b: Seq<Seq<char>>) -> int
    decreases a.len(),
{
    if a.len() == 0 {
        if b.len() == 0 {
            0
        } else {
            -1
        }
    } else if b.len() == 0 {
        1
    } else if text_order(a[0], b[0]) != 0 {
        text_order(a[0], b[0])
    } else {
        parts_order(a.drop_first(), b.drop_first())
    }
}

/// Order of two paths component by component; the root of an absolute path sorts before any
/// name, so absolute paths come before relative ones.
pub open spec fn path_order(a: Seq<char>, b: Seq<char>) -> int {
    if is_absolute_path(a) && !is_absolute_path(b) {
        -1
    } else if !is_absolute_path(a) && is_absolute_path(b) {
        1
    } else {
        parts_order(path_parts(a), path_parts(b))
    }
}

/// `x` placed after every path of `s` that sorts no later.
pub open spec fn insert_path(s: Seq<Seq<char>>, x: Seq<char>) -> Seq<Seq<char>>
    decreases s.len(),
{
    if s.len() == 0 || path_order(s.last(), x) <= 0 {
        s.push(x)
    } else {
        insert_path(s.drop_last(), x).push(s.last())
    }
}

/// `s` stably sorted by `path_order`.
pub open spec fn sorted_paths(s: Seq<Seq<char>>) -> Seq<Seq<char>>
    decreases s.len(),
{
    if s.len() == 0 {
        s
    } else {
        insert_path(sorted_paths(s.drop_last()), s.last())
    }
}

/// `s` with every path equal to the one just before it dropped.
pub open spec fn dedup_paths(s: Seq<Seq<char>>) -> Seq<Seq<char>>
    decreases s.len(),
{
    if s.len() == 0 {
        s
    } else if s.len() >= 2 && same_path(s[s.len() - 2], s.last()) {
        dedup_paths(s.drop_last())
    } else {
        dedup_paths(s.drop_last()).push(s.last())
    }
}

/// Drives offered for the mount points `mounts`: `/` added when missing, sorted, repeats
/// dropped.
pub open spec fn drives_of(mounts: Seq<Seq<char>>) -> Seq<Seq<char>> {
    let all = if selection_has(mounts, "/"@) {
        mounts
    } else {
        mounts.push("/"@)
    };
    dedup_paths(sorted_paths(all))
}

fn parts_order_exec(a: &Vec<Vec<char>>, b: &Vec<Vec<char>>) -> (r: i8)
    ensures
        r as int == parts_order(a.deep_view(), b.deep_view()),
{
    let ghost av = a.deep_view();
    let ghost bv = b.deep_view();
    let mut i: usize = 0;
    assert(av.skip(0) =~= av);
    assert(bv.skip(0) =~= bv);
    while i < a.len() && i < b.len()
        invariant
            i <= a.len(),
            i <= b.len(),
            av == a.deep_view(),
            bv == b.deep_view(),
            parts_order(av.skip(i as int), bv.skip(i as int)) == parts_order(av, bv),
        decreases a.len() - i,
    {
        assert(av.skip(i as int)[0] == a@[i as int]@);
        assert(bv.skip(i as int)[0] == b@[i as int]@);
        assert(av.skip(i as int).drop_first() =~= av.skip(i + 1));
        assert(bv.skip(i as int).drop_first() =~= bv.skip(i + 1));
        let c = text_order_exec(&a[i], &b[i]);
        if c != 0 {
            return c;
        }
        i = i + 1;
    }
    if i == a.len() && i == b.len() {
        assert(av.skip(i as int).len() == 0 && bv.skip(i as int).len() == 0);
        0
    } else if i == a.len() {
        assert(av.skip(i as int).len() == 0);
        -1
    } else {
        assert(bv.skip(i as int).len() == 0);
        1
    }
}

fn path_order_exec(a: &str, b: &str) -> (r: i8)
    ensures
        r as int == path_order(a@, b@),
{
    let pa = parse_path(&chars_of(a));
    let pb = parse_path(&chars_of(b));
    if pa.absolute && !pb.absolute {
        return -1;
    }
    if !pa.absolute && pb.absolute {
        return 1;
    }
    parts_order_exec(&pa.parts, &pb.parts)
}

proof fn lemma_insert_at(s: Seq<Seq<char>>, x: Seq<char>, j: int)
    requires
        0 <= j <= s.len(),
        forall|i: int| j <= i < s.len() ==> path_order(#[trigger] s[i], x) > 0,
        j > 0 ==> path_order(s[j - 1], x) <= 0,
    ensures
        insert_path(s, x) == s.take(j).push(x) + s.skip(j),
    decreases s.len(),
{
    if j == s.len() {
        assert(s.take(j).push(x) + s.skip(j) =~= s.push(x));
    } else {
        let d = s.drop_last();
        assert(s[s.len() - 1] == s.last());
        assert forall|i: int| j <= i < d.len() implies path_order(#[trigger] d[i], x) > 0 by {
            assert(d[i] == s[i]);
        }
        if j > 0 {
            assert(d[j - 1] == s[j - 1]);
        }
        lemma_insert_at(d, x, j);
        assert(d.take(j).push(x) + d.skip(j) + seq![s.last()] =~= s.take(j).push(x) + s.skip(j));
        assert(insert_path(d, x).push(s.last()) =~= insert_path(d, x) + seq![s.last()]);
    }
}

fn insert_sorted(out: &mut Vec<String>, x: String)
    ensures
        final(out).deep_view() == insert_path(old(out).deep_view(), x@),
{
    let ghost before = out.deep_view();
    let mut j: usize = out.len();
    while j > 0 && path_order_exec(out[j - 1].as_str(), x.as_str()) > 0
        invariant
            j <= out.len(),
            before == out.deep_view(),
            forall|k: int| j <= k < out.len() ==> path_order(#[trigger] before[k], x@) > 0,
        decreases j,
    {
        assert(before[j - 1] == out@[j - 1]@);
        j = j - 1;
    }
    proof {
        if j > 0 {
            assert(before[j - 1] == out@[j - 1]@);
        }
        lemma_insert_at(before, x@, j as int);
    }
    out.insert(j, x);
    assert(out.deep_view() =~= before.take(j as int).push(x@) + before.skip(j as int));
}

fn owned(s: &str) -> (r: String)
    ensures
        r@ == s@,
{
    string_from_chars(&chars_of(s))
}

/// Drives offered for the mount points `mounts`, as the caller found them on the system:
/// `/` added when missing, sorted component by component, repeats dropped.
pub fn drive_list(mounts: &Vec<String>) -> (r: Vec<String>)
    ensures
        r.deep_view() == drives_of(mounts.deep_view()),
{
    let mut all = copy_strings(mounts);
    proof {
        lemma_first_match(mounts.deep_view(), "/"@);
    }
    if position_in(mounts, "/").is_none() {
        let ghost before = all.deep_view();
        all.push(owned("/"));
        assert(all.deep_view() =~= before.push("/"@));
    }
    let ghost av = all.deep_view();
    let mut sorted: Vec<String> = Vec::new();
    let mut i: usize = 0;
    assert(av.take(0) =~= Seq::<Seq<char>>::empty());
    while i < all.len()
        invariant
            i <= all.len(),
            av == all.deep_view(),
            sorted.deep_view() == sorted_paths(av.take(i as int)),
        decreases all.len() - i,
    {
        assert(av.take(i + 1).drop_last() =~= av.take(i as int));
        assert(av.take(i + 1).last() == all@[i as int]@);
        insert_sorted(&mut sorted, copy_string(&all[i]));
        i = i + 1;
    }
    assert(av.take(all.len() as int) =~= av);
    let ghost sv = sorted.deep_view();
    let mut out: Vec<String> = Vec::new();
    let mut k: usize = 0;
    assert(sv.take(0) =~= Seq::<Seq<char>>::empty());
    while k < sorted.len()
        invariant
            k <= sorted.len(),
            sv == sorted.deep_view(),
            out.deep_view() == dedup_paths(sv.take(k as int)),
        decreases sorted.len() - k,
    {
        let ghost t = sv.take(k + 1);
        assert(t.drop_last() =~= sv.take(k as int));
        assert(t.last() == sorted@[k as int]@);
        if k > 0 {
            assert(t[t.len() - 2] == sorted@[k - 1]@);
        }
        let repeat = k > 0 && paths_equal(sorted[k - 1].as_str(), sorted[k].as_str());
        if !repeat {
            let ghost before = out.deep_view();
            out.push(copy_string(&sorted[k]));
            assert(out.deep_view() =~= before.push(sorted@[k as int]@));
        }
        k = k + 1;
    }
    assert(sv.take(sorted.len() as int) =~= sv);
    out
}

proof fn lemma_text_order_zero(a: Seq<char>, b: Seq<char>)
    requires
        text_order(a, b) == 0,
    ensures
        a == b,
    decreases a.len(),
{
    if a.len() > 0 {
        lemma_text_order_zero(a.drop_first(), b.drop_first());
        vstd::utf8::char_u32_cast(a[0], a[0] as u32);
        vstd::utf8::char_u32_cast(b[0], b[0] as u32);
        assert(a[0] == b[0]);
        assert(a =~= seq![a[0]] + a.drop_first());
        assert(b =~= seq![b[0]] + b.drop_first());
    } else {
        assert(a =~= b);
    }
}

proof fn lemma_parts_order_antisymmetric(a: Seq<Seq<char>>, b: Seq<Seq<char>>)
    ensures
        parts_order(a, b) == -parts_order(b, a),
    decreases a.len(),
{
    if a.len() > 0 && b.len() > 0 {
        lemma_text_order_antisymmetric(a[0], b[0]);
        lemma_parts_order_antisymmetric(a.drop_first(), b.drop_first());
    }
}

proof fn lemma_parts_order_zero(a: Seq<Seq<char>>, b: Seq<Seq<char>>)
    requires
        parts_order(a, b) == 0,
    ensures
        a == b,
    decreases a.len(),
{
    if a.len() > 0 {
        lemma_text_order_zero(a[0], b[0]);
        lemma_parts_order_zero(a.drop_first(), b.drop_first());
        assert(a =~= seq![a[0]] + a.drop_first());
        assert(b =~= seq![b[0]] + b.drop_first());
    }
}

proof fn lemma_parts_order_transitive(a: Seq<Seq<char>>, b: Seq<Seq<char>>, c: Seq<Seq<char>>)
    requires
        parts_order(a, b) <= 0,
        parts_order(b, c) <= 0,
    ensures
        parts_order(a, c) <= 0,
    decreases a.len(),
{
    if a.len() > 0 && b.len() > 0 && c.len() > 0 {
        lemma_text_order_range(a[0], b[0]);
        lemma_text_order_range(b[0], c[0]);
        lemma_text_order_range(a[0], c[0]);
        lemma_text_order_antisymmetric(a[0], b[0]);
        if text_order(a[0], b[0]) == 0 {
            lemma_text_order_zero(a[0], b[0]);
            if text_order(b[0], c[0]) == 0 {
                lemma_text_order_zero(b[0], c[0]);
                lemma_parts_order_transitive(a.drop_first(), b.drop_first(), c.drop_first());
            }
        } else {
            lemma_text_order_transitive(a[0], b[0], c[0]);
            if text_order(a[0], c[0]) == 0 {
                lemma_text_order_zero(a[0], c[0]);
            }
        }
    }
}

proof fn lemma_path_order_antisymmetric(a: Seq<char>, b: Seq<char>)
    ensures
        path_order(a, b) == -path_order(b, a),
{
    lemma_parts_order_antisymmetric(path_parts(a), path_parts(b));
}

proof fn lemma_path_order_transitive(a: Seq<char>, b: Seq<char>, c: Seq<char>)
    requires
        path_order(a, b) <= 0,
        path_order(b, c) <= 0,
    ensures
        path_order(a, c) <= 0,
{
    if is_absolute_path(a) == is_absolute_path(b) && is_absolute_path(b) == is_absolute_path(c) {
        lemma_parts_order_transitive(path_parts(a), path_parts(b), path_parts(c));
    }
}

proof fn lemma_path_order_zero(a: Seq<char>, b: Seq<char>)
    requires
        path_order(a, b) == 0,
    ensures
        same_path(a, b),
{
    lemma_parts_order_zero(path_parts(a), path_parts(b));
}

/// No path comes after a later one.
pub open spec fn in_path_order(s: Seq<Seq<char>>) -> bool {
    forall|i: int, j: int| 0 <= i < j < s.len() ==> path_order(s[i], s[j]) <= 0
}

proof fn lemma_insert_path_members(s: Seq<Seq<char>>, x: Seq<char>, q: Seq<char>)
    ensures
        selection_has(insert_path(s, x), q) == (selection_has(s, q) || same_path(x, q)),
    decreases s.len(),
{
    if s.len() == 0 || path_order(s.last(), x) <= 0 {
        lemma_has_push(s, x, q);
    } else {
        let d = s.drop_last();
        lemma_insert_path_members(d, x, q);
        lemma_has_push(insert_path(d, x), s.last(), q);
        lemma_has_push(d, s.last(), q);
        assert(d.push(s.last()) =~= s);
    }
}

proof fn lemma_insert_path_sorted(s: Seq<Seq<char>>, x: Seq<char>)
    requires
        in_path_order(s),
    ensures
        in_path_order(insert_path(s, x)),
        insert_path(s, x).len() == s.len() + 1,
        forall|k: int|
            0 <= k < insert_path(s, x).len() ==> #[trigger] insert_path(s, x)[k] == x || s.contains(
                insert_path(s, x)[k],
            ),
    decreases s.len(),
{
    let r = insert_path(s, x);
    if s.len() == 0 {
    } else if path_order(s.last(), x) <= 0 {
        assert forall|i: int, j: int| 0 <= i < j < r.len() implies path_order(r[i], r[j]) <= 0 by {
            if j == s.len() && i < s.len() - 1 {
                lemma_path_order_transitive(s[i], s.last(), x);
            }
        }
        assert forall|k: int| 0 <= k < r.len() implies #[trigger] r[k] == x || s.contains(r[k]) by {
            if k < s.len() {
                assert(r[k] == s[k]);
            }
        }
    } else {
        let d = s.drop_last();
        let last = s.last();
        assert(in_path_order(d));
        lemma_insert_path_sorted(d, x);
        let inner = insert_path(d, x);
        lemma_path_order_antisymmetric(last, x);
        assert forall|i: int, j: int| 0 <= i < j < r.len() implies path_order(r[i], r[j]) <= 0 by {
            if j == r.len() - 1 {
                assert(r[i] == inner[i]);
                if inner[i] != x {
                    let k = choose|k: int| 0 <= k < d.len() && d[k] == inner[i];
                    assert(s[k] == d[k]);
                    assert(path_order(s[k], s[s.len() - 1]) <= 0);
                }
            } else {
                assert(r[i] == inner[i] && r[j] == inner[j]);
            }
        }
        assert forall|k: int| 0 <= k < r.len() implies #[trigger] r[k] == x || s.contains(r[k]) by {
            if k < r.len() - 1 {
                assert(r[k] == inner[k]);
                if inner[k] != x {
                    let m = choose|m: int| 0 <= m < d.len() && d[m] == inner[k];
                    assert(s[m] == d[m]);
                }
            } else {
                assert(s[s.len() - 1] == last);
            }
        }
    }
}

proof fn lemma_sorted_paths(s: Seq<Seq<char>>)
    ensures
        in_path_order(sorted_paths(s)),
        forall|q: Seq<char>| selection_has(sorted_paths(s), q) == selection_has(s, q),
    decreases s.len(),
{
    if s.len() > 0 {
        let d = s.drop_last();
        lemma_sorted_paths(d);
        lemma_insert_path_sorted(sorted_paths(d), s.last());
        assert forall|q: Seq<char>| selection_has(sorted_paths(s), q) == selection_has(s, q) by {
            lemma_insert_path_members(sorted_paths(d), s.last(), q);
            lemma_has_push(d, s.last(), q);
            assert(d.push(s.last()) =~= s);
        }
    }
}

proof fn lemma_dedup_paths(s: Seq<Seq<char>>)
    requires
        in_path_order(s),
    ensures
        forall|i: int, j: int| 0 <= i < j < dedup_paths(s).len() ==> path_order(#[trigger] dedup_paths(s)[i], #[trigger] dedup_paths(s)[j]) < 0,
        forall|q: Seq<char>| selection_has(dedup_paths(s), q) == selection_has(s, q),
        forall|k: int| 0 <= k < dedup_paths(s).len() ==> s.contains(#[trigger] dedup_paths(s)[k]),
        s.len() > 0 ==> dedup_paths(s).len() > 0 && same_path(dedup_paths(s).last(), s.last()),
    decreases s.len(),
{
    if s.len() > 0 {
        let d = s.drop_last();
        let u = dedup_paths(d);
        let x = s.last();
        assert(in_path_order(d));
        lemma_dedup_paths(d);
        assert(d.push(x) =~= s);
        if s.len() >= 2 && same_path(s[s.len() - 2], x) {
            assert(d.last() == s[s.len() - 2]);
            assert forall|q: Seq<char>| selection_has(dedup_paths(s), q) == selection_has(s, q) by {
                lemma_has_push(d, x, q);
                if same_path(x, q) && !selection_has(d, q) {
                    assert(same_path(d[d.len() - 1], q));
                }
            }
            assert forall|k: int| 0 <= k < u.len() implies s.contains(#[trigger] u[k]) by {
                let m = choose|m: int| 0 <= m < d.len() && d[m] == u[k];
                assert(s[m] == d[m]);
            }
        } else {
            let r = u.push(x);
            assert forall|i: int, j: int| 0 <= i < j < r.len() implies path_order(#[trigger] r[i], #[trigger] r[j]) < 0 by {
                if j == u.len() {
                    assert(r[i] == u[i]);
                    let m = choose|m: int| 0 <= m < d.len() && d[m] == u[i];
                    assert(s[m] == d[m]);
                    assert(path_order(s[m], x) <= 0);
                    if path_order(u[i], x) == 0 {
                        let n = s.len() - 2;
                        assert(s[n] == d.last());
                        if m < n {
                            assert(path_order(s[m], s[n]) <= 0);
                        }
                        assert(path_order(s[n], x) <= 0);
                        lemma_path_order_antisymmetric(s[m], x);
                        lemma_path_order_antisymmetric(s[n], x);
                        if m < n {
                            lemma_path_order_transitive(x, s[m], s[n]);
                        }
                        lemma_path_order_zero(s[n], x);
                    }
                } else {
                    assert(r[i] == u[i] && r[j] == u[j]);
                }
            }
            assert forall|q: Seq<char>| selection_has(r, q) == selection_has(s, q) by {
                lemma_has_push(d, x, q);
                lemma_has_push(u, x, q);
            }
            assert forall|k: int| 0 <= k < r.len() implies s.contains(#[trigger] r[k]) by {
                if k < u.len() {
                    assert(r[k] == u[k]);
                    let m = choose|m: int| 0 <= m < d.len() && d[m] == u[k];
                    assert(s[m] == d[m]);
                } else {
                    assert(s[s.len() - 1] == x);
                }
            }
        }
    }
}

/// The drives come sorted component by component with no path twice, and the root is among
/// them, whatever the mount points.
pub proof fn law_drives_sorted_distinct_with_root(mounts: Seq<Seq<char>>)
    ensures
        forall|i: int, j: int|
            0 <= i < j < drives_of(mounts).len() ==> path_order(
                #[trigger] drives_of(mounts)[i],
                #[trigger] drives_of(mounts)[j],
            ) < 0,
        selection_has(drives_of(mounts), "/"@),
        forall|q: Seq<char>| selection_has(drives_of(mounts), q) == (selection_has(mounts, q) || same_path(q, "/"@)),
{
    let all = if selection_has(mounts, "/"@) {
        mounts
    } else {
        mounts.push("/"@)
    };
    lemma_sorted_paths(all);
    lemma_dedup_paths(sorted_paths(all));
    assert(same_path("/"@, "/"@));
    assert forall|q: Seq<char>| selection_has(all, q) == (selection_has(mounts, q) || same_path(q, "/"@)) by {
        lemma_has_push(mounts, "/"@, q);
        if selection_has(mounts, "/"@) && same_path(q, "/"@) && !selection_has(mounts, q) {
            let i = choose|i: int| 0 <= i < mounts.len() && same_path(#[trigger] mounts[i], "/"@);
            assert(same_path(mounts[i], q));
        }
    }
    if !selection_has(mounts, "/"@) {
        lemma_has_push(mounts, "/"@, "/"@);
    }
}

} // verus!
