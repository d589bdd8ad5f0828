//! Directory completions offered while a path is typed in the path bar.
use vstd::prelude::*;

use crate::entries::{ascii_lower, ascii_lowercase, text_order, text_order_exec};
use crate::text::{chars_of, copy_string, starts_with_chars};

verus! {

/// A subdirectory offered as a completion: its name and its path.
pub struct DirCandidate {
    pub name: String,
    pub path: String,
}

pub open spec fn cand_view(c: DirCandidate) -> (Seq<char>, Seq<char>) {
    (c.name@, c.path@)
}

/// Whether a directory named `name` completes `prefix`: every one does for an empty prefix,
/// else its name starts with the prefix, ASCII letter case aside.
pub open spec fn completes(name: Seq<char>, prefix: Seq<char>) -> bool {
    prefix.len() == 0 || (ascii_lower(prefix).len() <= ascii_lower(name).len() && ascii_lower(name).take(
        ascii_lower(prefix).len() as int,
    ) == ascii_lower(prefix))
}

/// `x` placed after every candidate of `s` whose lower-cased name sorts no later.
pub open spec fn insert_by_name(s: Seq<(Seq<char>, Seq<char>)>, x: (Seq<char>, Seq<char>)) -> Seq<(Seq<char>, Seq<char>)>
    decreases s.len(),
{
    if s.len() == 0 || text_order(ascii_lower(s.last().0), ascii_lower(x.0)) <= 0 {
        s.push(x)
    } else {
        insert_by_name(s.drop_last(), x).push(s.last())
    }
}

/// The candidates that complete `prefix`, stably sorted by lower-cased name.
pub open spec fn completions_of(cs: Seq<(Seq<char>, Seq<char>)>, prefix: Seq<char>) -> Seq<(Seq<char>, Seq<char>)>
    decreases cs.len(),
{
    if cs.len() == 0 {
        Seq::empty()
    } else if completes(cs.last().0, prefix) {
        insert_by_name(completions_of(cs.drop_last(), prefix), cs.last())
    } else {
        completions_of(cs.drop_last(), prefix)
    }
}

proof fn lemma_insert_at(s: Seq<(Seq<char>, Seq<char>)>, x: (Seq<char>, Seq<char>), j: int)
    requires
        0 <= j <= s.len(),
        forall|i: int| j <= i < s.len() ==> text_order(ascii_lower(#[trigger] s[i].0), ascii_lower(x.0)) > 0,
        j > 0 ==> text_order(ascii_lower(s[j - 1].0), ascii_lower(x.0)) <= 0,
    ensures
        insert_by_name(s, x) == s.take(j).push(x) + s.skip(j),
    decreases s.len(),
{
    if j == s.len() {
        assert(s.take(j).push(x) + s.skip(j) =~= s.push(x));
    } else {
        let d = s.drop_last();
        assert(s[s.len() - 1] == s.last());
        assert forall|i: int| j <= i < d.len() implies text_order(ascii_lower(#[trigger] d[i].0), ascii_lower(x.0)) > 0 by {
            assert(d[i] == s[i]);
        }
        if j > 0 {
            assert(d[j - 1] == s[j - 1]);
        }
        lemma_insert_at(d, x, j);
        assert(d.take(j).push(x) + d.skip(j) + seq![s.last()] =~= s.take(j).push(x) + s.skip(j));
        assert(insert_by_name(d, x).push(s.last()) =~= insert_by_name(d, x) + seq![s.last()]);
    }
}

fn completes_exec(name: &String, prefix_lower: &Vec<char>, prefix: &str) -> (r: bool)
    requires
        prefix_lower@ == ascii_lower(prefix@),
    ensures
        r == completes(name@, prefix@),
{
    if chars_of(prefix).len() == 0 {
        return true;
    }
    let lower = ascii_lowercase(&chars_of(name.as_str()));
    let r = starts_with_chars(&lower, prefix_lower);
    assert(lower@.len() >= prefix_lower@.len() ==> lower@.subrange(0, prefix_lower@.len() as int) =~= lower@.take(
        prefix_lower@.len() as int,
    ));
    r
}

/// Paths of the subdirectories `candidates` (as the caller listed them) that complete
/// `prefix`, sorted by lower-cased name, ties in listing order.
pub fn directory_completions(candidates: &Vec<DirCandidate>, prefix: &str) -> (r: Vec<String>)
    ensures
        r.deep_view() == completions_of(candidates@.map_values(|c: DirCandidate| cand_view(c)), prefix@).map_values(
            |x: (Seq<char>, Seq<char>)| x.1,
        ),
{
    let ghost cs = candidates@.map_values(|c: DirCandidate| cand_view(c));
    let prefix_lower = ascii_lowercase(&chars_of(prefix));
    let mut out: Vec<DirCandidate> = Vec::new();
    let mut i: usize = 0;
    assert(cs.take(0) =~= Seq::<(Seq<char>, Seq<char>)>::empty());
    while i < candidates.len()
        invariant
            i <= candidates.len(),
            cs == candidates@.map_values(|c: DirCandidate| cand_view(c)),
            prefix_lower@ == ascii_lower(prefix@),
            out@.map_values(|c: DirCandidate| cand_view(c)) == completions_of(cs.take(i as int), prefix@),
        decreases candidates.len() - i,
    {
        assert(cs.take(i + 1).drop_last() =~= cs.take(i as int));
        assert(cs.take(i + 1).last() == cand_view(candidates@[i as int]));
        let c = &candidates[i];
        if completes_exec(&c.name, &prefix_lower, prefix) {
            let key = ascii_lowercase(&chars_of(c.name.as_str()));
            let ghost ov = out@.map_values(|d: DirCandidate| cand_view(d));
            let mut j: usize = out.len();
            while j > 0 && text_order_exec(&ascii_lowercase(&chars_of(out[j - 1].name.as_str())), &key) > 0
                invariant
                    j <= out.len(),
                    key@ == ascii_lower(c.name@),
                    ov == out@.map_values(|d: DirCandidate| cand_view(d)),
                    forall|k: int| j <= k < out.len() ==> text_order(ascii_lower(#[trigger] ov[k].0), key@) > 0,
                decreases j,
            {
                assert(ov[j - 1] == cand_view(out@[j - 1]));
                j = j - 1;
            }
            proof {
                if j > 0 {
                    assert(ov[j - 1] == cand_view(out@[j - 1]));
                }
                lemma_insert_at(ov, cand_view(*c), j as int);
            }
            out.insert(j, DirCandidate { name: copy_string(&c.name), path: copy_string(&c.path) });
            assert(out@.map_values(|d: DirCandidate| cand_view(d)) =~= ov.take(j as int).push(cand_view(*c)) + ov.skip(
                j as int,
            ));
        }
        i = i + 1;
    }
    assert(cs.take(i as int) =~= cs);
    let ghost ov = out@.map_values(|d: DirCandidate| cand_view(d));
    let mut paths: Vec<String> = Vec::new();
    let mut k: usize = 0;
    while k < out.len()
        invariant
            k <= out.len(),
            ov == out@.map_values(|d: DirCandidate| cand_view(d)),
            paths.deep_view() == ov.map_values(|x: (Seq<char>, Seq<char>)| x.1).take(k as int),
        decreases out.len() - k,
    {
        let ghost before = paths.deep_view();
        paths.push(copy_string(&out[k].path));
        assert(ov[k as int] == cand_view(out@[k as int]));
        assert(paths.deep_view() =~= before.push(out@[k as int].path@));
        assert(paths.deep_view() =~= ov.map_values(|x: (Seq<char>, Seq<char>)| x.1).take(k + 1));
        k = k + 1;
    }
    assert(ov.map_values(|x: (Seq<char>, Seq<char>)| x.1).take(k as int) =~= ov.map_values(
        |x: (Seq<char>, Seq<char>)| x.1,
    ));
    paths
}

} // verus!
