//! Unix-style path handling on character sequences.
//!
//! A path is read component-wise: a leading `/` makes it absolute, and the
//! text between separators gives its parts, where empty segments (repeated
//! separators) carry no meaning and a `.` segment counts only as the first segment of the
//! text (`./a` has the parts `.` and `a`; `a/./b` has `a` and `b`). `..` is kept as a part.
use vstd::prelude::*;

use crate::text::{
    append_chars, chars_eq, chars_of, contains_char, trim_chars, trim_of, copy_chars, find_last_char, last_index_of, lemma_last_index_of, slice_chars, string_from_chars,
};

verus! {

/// A segment that counts as a part of a path; `first` when it starts the text.
pub open spec fn keep_segment(seg: Seq<char>, first: bool) -> bool {
    seg.len() > 0 && (seg != seq!['.'] || first)
}

/// Parts found so far plus the current unfinished segment.
pub open spec fn flush_segment(done: Seq<Seq<char>>, cur: Seq<char>, first: bool) -> Seq<Seq<char>> {
    if keep_segment(cur, first) {
        done.push(cur)
    } else {
        done
    }
}

/// Left-to-right scan of a path: finished parts, the segment being read, and whether a
/// separator has been seen (so that the segment being read is not the first).
pub open spec fn scan_path(s: Seq<char>) -> (Seq<Seq<char>>, Seq<char>, bool)
    decreases s.len(),
{
    if s.len() == 0 {
        (Seq::empty(), Seq::empty(), false)
    } else {
        let (done, cur, seen) = scan_path(s.drop_last());
        if s.last() == '/' {
            (flush_segment(done, cur, !seen), Seq::empty(), true)
        } else {
            (done, cur.push(s.last()), seen)
        }
    }
}

/// The parts of a path, in order.
pub open spec fn path_parts(s: Seq<char>) -> Seq<Seq<char>> {
    flush_segment(scan_path(s).0, scan_path(s).1, !scan_path(s).2)
}

pub open spec fn is_absolute_path(s: Seq<char>) -> bool {
    s.len() > 0 && s[0] == '/'
}

/// Parts joined by `/`.
pub open spec fn join_parts(parts: Seq<Seq<char>>) -> Seq<char>
    decreases parts.len(),
{
    if parts.len() == 0 {
        Seq::empty()
    } else if parts.len() == 1 {
        parts[0]
    } else {
        join_parts(parts.drop_last()) + seq!['/'] + parts.last()
    }
}

/// Text of the path with the given absoluteness and parts.
pub open spec fn render_path(absolute: bool, parts: Seq<Seq<char>>) -> Seq<char> {
    if absolute {
        seq!['/'] + join_parts(parts)
    } else {
        join_parts(parts)
    }
}

/// Two paths are the same when they agree component-wise.
pub open spec fn same_path(a: Seq<char>, b: Seq<char>) -> bool {
    is_absolute_path(a) == is_absolute_path(b) && path_parts(a) == path_parts(b)
}

/// A path read component-wise.
pub struct ParsedPath {
    pub absolute: bool,
    pub parts: Vec<Vec<char>>,
}

impl ParsedPath {
    pub open spec fn parts_view(&self) -> Seq<Seq<char>> {
        self.parts.deep_view()
    }
}

pub proof fn lemma_char_vec_deep_view(v: Vec<char>)
    ensures
        v.deep_view() == v@,
{
    assert(v.deep_view() =~= v@);
}

fn is_dot_segment(cur: &Vec<char>, first: bool) -> (r: bool)
    ensures
        r == !keep_segment(cur@, first),
{
    if cur.len() == 0 {
        true
    } else if cur.len() == 1 && cur[0] == '.' {
        assert(cur@ =~= seq!['.']);
        !first
    } else {
        assert(cur@.len() != 1 ==> cur@ != seq!['.']);
        false
    }
}

/// Reads `s` component-wise.
pub fn parse_path(s: &Vec<char>) -> (r: ParsedPath)
    ensures
        r.absolute == is_absolute_path(s@),
        r.parts_view() == path_parts(s@),
{
    let mut done: Vec<Vec<char>> = Vec::new();
    let mut cur: Vec<char> = Vec::new();
    let mut seen = false;
    let mut i: usize = 0;
    assert(s@.take(0) =~= Seq::<char>::empty());
    while i < s.len()
        invariant
            i <= s.len(),
            done.deep_view() == scan_path(s@.take(i as int)).0,
            cur@ == scan_path(s@.take(i as int)).1,
            seen == scan_path(s@.take(i as int)).2,
        decreases s.len() - i,
    {
        let c = s[i];
        assert(s@.take(i + 1).drop_last() =~= s@.take(i as int));
        assert(s@.take(i + 1).last() == c);
        if c == '/' {
            if !is_dot_segment(&cur, !seen) {
                let ghost before = done.deep_view();
                let piece = cur;
                proof {
                    lemma_char_vec_deep_view(piece);
                }
                done.push(piece);
                assert(done.deep_view() =~= before.push(piece@));
            }
            cur = Vec::new();
            seen = true;
        } else {
            cur.push(c);
        }
        i = i + 1;
    }
    assert(s@.take(s.len() as int) =~= s@);
    if !is_dot_segment(&cur, !seen) {
        let ghost before = done.deep_view();
        let piece = cur;
        proof {
            lemma_char_vec_deep_view(piece);
        }
        done.push(piece);
        assert(done.deep_view() =~= before.push(piece@));
    }
    let absolute = s.len() > 0 && s[0] == '/';
    ParsedPath { absolute, parts: done }
}


/// Parent of a path: the same path without its last part.
pub open spec fn parent_of(s: Seq<char>) -> Option<Seq<char>> {
    let parts = path_parts(s);
    if parts.len() == 0 {
        None
    } else {
        Some(render_path(is_absolute_path(s), parts.drop_last()))
    }
}

/// Final part of a path, unless it is `.` or `..`.
pub open spec fn file_name_of(s: Seq<char>) -> Option<Seq<char>> {
    let parts = path_parts(s);
    if parts.len() == 0 || parts.last() == seq!['.'] || parts.last() == seq!['.', '.'] {
        None
    } else {
        Some(parts.last())
    }
}

/// Extension of a file name: the text after its last `.`, when that dot is not its first character.
pub open spec fn extension_of_name(name: Seq<char>) -> Option<Seq<char>> {
    let d = last_index_of(name, '.');
    if d <= 0 {
        None
    } else {
        Some(name.subrange(d + 1, name.len() as int))
    }
}

/// File name without its extension.
pub open spec fn stem_of_name(name: Seq<char>) -> Seq<char> {
    let d = last_index_of(name, '.');
    if d <= 0 {
        name
    } else {
        name.subrange(0, d)
    }
}

pub open spec fn extension_of(s: Seq<char>) -> Option<Seq<char>> {
    match file_name_of(s) {
        Some(name) => extension_of_name(name),
        None => None,
    }
}

/// Text of the path made of the first `n` parts of `parts`.
pub fn render_prefix(absolute: bool, parts: &Vec<Vec<char>>, n: usize) -> (r: Vec<char>)
    requires
        n <= parts.len(),
    ensures
        r@ == render_path(absolute, parts.deep_view().take(n as int)),
{
    let mut out: Vec<char> = Vec::new();
    let mut k: usize = 0;
    assert(parts.deep_view().take(0) =~= Seq::<Seq<char>>::empty());
    while k < n
        invariant
            k <= n <= parts.len(),
            out@ == join_parts(parts.deep_view().take(k as int)),
        decreases n - k,
    {
        let ghost pv = parts.deep_view();
        proof {
            lemma_char_vec_deep_view(parts@[k as int]);
        }
        assert(pv.take(k + 1).drop_last() =~= pv.take(k as int));
        assert(pv.take(k + 1).last() == parts@[k as int]@);
        if k > 0 {
            out.push('/');
        }
        append_chars(&mut out, &parts[k]);
        proof {
            if k == 0 {
                assert(pv.take(1).len() == 1);
                assert(out@ =~= pv.take(1)[0]);
            } else {
                assert(out@ =~= join_parts(pv.take(k as int)) + seq!['/'] + pv.take(k + 1).last());
            }
        }
        k = k + 1;
    }
    if absolute {
        let mut r: Vec<char> = Vec::new();
        r.push('/');
        append_chars(&mut r, &out);
        assert(r@ =~= seq!['/'] + out@);
        r
    } else {
        out
    }
}

/// Parent directory of a path; `None` for the filesystem root and for a path without parts.
pub fn parent_path(path: &str) -> (r: Option<String>)
    ensures
        match r {
            Some(p) => parent_of(path@) == Some(p@),
            None => parent_of(path@) is None,
        },
{
    let chars = chars_of(path);
    let parsed = parse_path(&chars);
    if parsed.parts.len() == 0 {
        None
    } else {
        let n = parsed.parts.len() - 1;
        let text = render_prefix(parsed.absolute, &parsed.parts, n);
        assert(parsed.parts_view().take(n as int) =~= parsed.parts_view().drop_last());
        Some(string_from_chars(&text))
    }
}

/// Whether a path is the filesystem root `/`.
pub fn is_filesystem_root(path: &str) -> (r: bool)
    ensures
        r == (is_absolute_path(path@) && path_parts(path@).len() == 0),
{
    let chars = chars_of(path);
    let parsed = parse_path(&chars);
    parsed.absolute && parsed.parts.len() == 0
}

fn is_dotdot(v: &Vec<char>) -> (r: bool)
    ensures
        r == (v@ == seq!['.', '.']),
{
    if v.len() == 2 && v[0] == '.' && v[1] == '.' {
        assert(v@ =~= seq!['.', '.']);
        true
    } else {
        false
    }
}

/// Final part of a path as characters.
pub fn file_name_chars(path: &Vec<char>) -> (r: Option<Vec<char>>)
    ensures
        match r {
            Some(n) => file_name_of(path@) == Some(n@),
            None => file_name_of(path@) is None,
        },
{
    let parsed = parse_path(path);
    let count = parsed.parts.len();
    if count == 0 {
        return None;
    }
    proof {
        lemma_char_vec_deep_view(parsed.parts@[count - 1]);
    }
    let last = copy_chars(&parsed.parts[count - 1]);
    if is_dotdot(&last) || (last.len() == 1 && last[0] == '.') {
        proof {
            if last@.len() == 1 && last@[0] == '.' {
                assert(last@ =~= seq!['.']);
            }
        }
        None
    } else {
        Some(last)
    }
}

/// Final part of a path, unless it is `.` or `..` or there is none.
pub fn file_name(path: &str) -> (r: Option<String>)
    ensures
        match r {
            Some(n) => file_name_of(path@) == Some(n@),
            None => file_name_of(path@) is None,
        },
{
    let chars = chars_of(path);
    match file_name_chars(&chars) {
        Some(n) => Some(string_from_chars(&n)),
        None => None,
    }
}

/// Extension of a file name.
pub fn name_extension(name: &Vec<char>) -> (r: Option<Vec<char>>)
    ensures
        match r {
            Some(e) => extension_of_name(name@) == Some(e@),
            None => extension_of_name(name@) is None,
        },
{
    proof {
        lemma_last_index_of(name@, '.');
    }
    match find_last_char(name, '.') {
        Some(d) => {
            if d == 0 {
                None
            } else {
                let end = name.len();
                assert(d < end);
                Some(slice_chars(name, d + 1, end))
            }
        },
        None => None,
    }
}

/// File name without its extension.
pub fn name_stem(name: &Vec<char>) -> (r: Vec<char>)
    ensures
        r@ == stem_of_name(name@),
{
    proof {
        lemma_last_index_of(name@, '.');
    }
    match find_last_char(name, '.') {
        Some(d) => {
            if d == 0 {
                copy_chars(name)
            } else {
                slice_chars(name, 0, d)
            }
        },
        None => copy_chars(name),
    }
}

/// Extension of the final part of a path.
pub fn path_extension(path: &str) -> (r: Option<String>)
    ensures
        match r {
            Some(e) => extension_of(path@) == Some(e@),
            None => extension_of(path@) is None,
        },
{
    let chars = chars_of(path);
    match file_name_chars(&chars) {
        Some(n) => match name_extension(&n) {
            Some(e) => Some(string_from_chars(&e)),
            None => None,
        },
        None => None,
    }
}


/// Parts with every `..` removed.
pub open spec fn normal_parts(parts: Seq<Seq<char>>) -> Seq<Seq<char>>
    decreases parts.len(),
{
    if parts.len() == 0 {
        Seq::empty()
    } else if parts.last() == seq!['.', '.'] {
        normal_parts(parts.drop_last())
    } else {
        normal_parts(parts.drop_last()).push(parts.last())
    }
}

/// Parts shown as breadcrumbs: the first component of a relative path is passed over.
pub open spec fn crumb_parts(s: Seq<char>) -> Seq<Seq<char>> {
    let parts = path_parts(s);
    if is_absolute_path(s) || parts.len() == 0 {
        normal_parts(parts)
    } else {
        normal_parts(parts.drop_first())
    }
}

/// Breadcrumb `i` of a path: the part's name and the path up to and including it.
pub open spec fn crumb_at(s: Seq<char>, i: int) -> (Seq<char>, Seq<char>) {
    (crumb_parts(s)[i], render_path(is_absolute_path(s), crumb_parts(s).take(i + 1)))
}

/// Number of breadcrumbs that come before the parts: one `Root` crumb for an absolute path.
pub open spec fn root_crumbs(s: Seq<char>) -> int {
    if is_absolute_path(s) {
        1
    } else {
        0
    }
}

fn drop_parent_parts(parts: &Vec<Vec<char>>, from: usize) -> (r: Vec<Vec<char>>)
    requires
        from <= parts.len(),
    ensures
        r.deep_view() == normal_parts(parts.deep_view().subrange(from as int, parts.len() as int)),
{
    let mut out: Vec<Vec<char>> = Vec::new();
    let mut k: usize = from;
    let ghost pv = parts.deep_view();
    assert(pv.subrange(from as int, from as int) =~= Seq::<Seq<char>>::empty());
    while k < parts.len()
        invariant
            from <= k <= parts.len(),
            pv == parts.deep_view(),
            out.deep_view() == normal_parts(pv.subrange(from as int, k as int)),
        decreases parts.len() - k,
    {
        proof {
            lemma_char_vec_deep_view(parts@[k as int]);
        }
        assert(pv.subrange(from as int, k + 1).drop_last() =~= pv.subrange(from as int, k as int));
        assert(pv.subrange(from as int, k + 1).last() == parts@[k as int]@);
        if !is_dotdot(&parts[k]) {
            let ghost before = out.deep_view();
            let piece = copy_chars(&parts[k]);
            proof {
                lemma_char_vec_deep_view(piece);
            }
            out.push(piece);
            assert(out.deep_view() =~= before.push(piece@));
        }
        k = k + 1;
    }
    out
}

/// Breadcrumbs of a path: `("Root", "/")` for an absolute path, then each part with the
/// path leading to it.
pub fn path_components(path: &str) -> (r: Vec<(String, String)>)
    ensures
        r.len() == root_crumbs(path@) + crumb_parts(path@).len(),
        is_absolute_path(path@) ==> r@[0].0@ == "Root"@ && r@[0].1@ == "/"@,
        forall|i: int|
            0 <= i < crumb_parts(path@).len() ==> (#[trigger] r@[i + root_crumbs(path@)]).0@
                == crumb_at(path@, i).0 && r@[i + root_crumbs(path@)].1@ == crumb_at(path@, i).1,
{
    let chars = chars_of(path);
    let parsed = parse_path(&chars);
    let ghost pv = parsed.parts_view();
    let from: usize = if parsed.absolute || parsed.parts.len() == 0 {
        0
    } else {
        1
    };
    let normals = drop_parent_parts(&parsed.parts, from);
    proof {
        if from == 0 {
            assert(pv.subrange(0, pv.len() as int) =~= pv);
        } else {
            assert(pv.subrange(1, pv.len() as int) =~= pv.drop_first());
        }
    }
    let ghost np = normals.deep_view();
    assert(np == crumb_parts(path@));
    let mut out: Vec<(String, String)> = Vec::new();
    let ghost base: int = if parsed.absolute { 1 } else { 0 };
    if parsed.absolute {
        let label = string_from_chars(&chars_of("Root"));
        let root = string_from_chars(&chars_of("/"));
        out.push((label, root));
    }
    let mut k: usize = 0;
    while k < normals.len()
        invariant
            k <= normals.len(),
            np == normals.deep_view(),
            np == crumb_parts(path@),
            base == root_crumbs(path@),
            out.len() == base + k,
            is_absolute_path(path@) ==> out@[0].0@ == "Root"@ && out@[0].1@ == "/"@,
            parsed.absolute == is_absolute_path(path@),
            forall|i: int|
                0 <= i < k ==> (#[trigger] out@[i + base]).0@ == crumb_at(path@, i).0
                    && out@[i + base].1@ == crumb_at(path@, i).1,
        decreases normals.len() - k,
    {
        proof {
            lemma_char_vec_deep_view(normals@[k as int]);
        }
        let name = string_from_chars(&normals[k]);
        let acc = render_prefix(parsed.absolute, &normals, k + 1);
        let acc_text = string_from_chars(&acc);
        out.push((name, acc_text));
        k = k + 1;
    }
    out
}

/// Label of one breadcrumb segment: its file name, else the path itself.
pub open spec fn segment_label(s: Seq<char>) -> Seq<char> {
    match file_name_of(s) {
        Some(name) => name,
        None => s,
    }
}

/// Name shown on a tab: `Home` for the home directory, `Root` for `/`, else the final part.
pub open spec fn tab_label_of(s: Seq<char>, home: Seq<char>) -> Seq<char> {
    if same_path(s, home) {
        "Home"@
    } else if is_absolute_path(s) && path_parts(s).len() == 0 {
        "Root"@
    } else {
        segment_label(s)
    }
}

fn parts_eq(a: &Vec<Vec<char>>, b: &Vec<Vec<char>>) -> (r: bool)
    ensures
        r == (a.deep_view() == b.deep_view()),
{
    if a.len() != b.len() {
        assert(a.deep_view().len() != b.deep_view().len());
        return false;
    }
    let mut i: usize = 0;
    while i < a.len()
        invariant
            a.len() == b.len(),
            i <= a.len(),
            forall|k: int| 0 <= k < i ==> a.deep_view()[k] == b.deep_view()[k],
        decreases a.len() - i,
    {
        proof {
            lemma_char_vec_deep_view(a@[i as int]);
            lemma_char_vec_deep_view(b@[i as int]);
        }
        if !chars_eq(&a[i], &b[i]) {
            assert(a.deep_view()[i as int] != b.deep_view()[i as int]);
            return false;
        }
        i = i + 1;
    }
    assert(a.deep_view() =~= b.deep_view());
    true
}

/// Whether two paths agree component-wise.
pub fn paths_equal(a: &str, b: &str) -> (r: bool)
    ensures
        r == same_path(a@, b@),
{
    let pa = parse_path(&chars_of(a));
    let pb = parse_path(&chars_of(b));
    pa.absolute == pb.absolute && parts_eq(&pa.parts, &pb.parts)
}

fn segment_display_name(path: &str) -> (r: String)
    ensures
        r@ == segment_label(path@),
{
    match file_name(path) {
        Some(name) => name,
        None => string_from_chars(&chars_of(path)),
    }
}

/// Name shown on a tab for `path`, where `home` is the user's home directory.
pub fn tab_display_name(path: &str, home: &str) -> (r: String)
    ensures
        r@ == tab_label_of(path@, home@),
{
    if paths_equal(path, home) {
        return string_from_chars(&chars_of("Home"));
    }
    if is_filesystem_root(path) {
        return string_from_chars(&chars_of("Root"));
    }
    segment_display_name(path)
}


/// `~`, `~/rest` and `~\\rest` with the home directory written out; any other text unchanged.
pub open spec fn expand_tilde_of(text: Seq<char>, home: Seq<char>) -> Seq<char> {
    if text == seq!['~'] {
        home
    } else if text.len() >= 2 && text[0] == '~' && text[1] == '/' {
        home + seq!['/'] + text.subrange(2, text.len() as int)
    } else if text.len() >= 2 && text[0] == '~' && text[1] == '\\' {
        home + seq!['\\'] + text.subrange(2, text.len() as int)
    } else {
        text
    }
}

fn expand_tilde_chars(text: &Vec<char>, home: &str) -> (r: Vec<char>)
    ensures
        r@ == expand_tilde_of(text@, home@),
{
    if text.len() == 1 && text[0] == '~' {
        assert(text@ =~= seq!['~']);
        return chars_of(home);
    }
    if text.len() >= 2 && text[0] == '~' && (text[1] == '/' || text[1] == '\\') {
        assert(text@ != seq!['~']);
        let mut out = chars_of(home);
        out.push(text[1]);
        let rest = slice_chars(text, 2, text.len());
        append_chars(&mut out, &rest);
        return out;
    }
    assert(text@.len() == 1 && text@[0] == '~' ==> text@ =~= seq!['~']);
    copy_chars(text)
}

/// Text with a leading `~` replaced by `home`.
pub fn expand_tilde(text: &str, home: &str) -> (r: String)
    ensures
        r@ == expand_tilde_of(text@, home@),
{
    string_from_chars(&expand_tilde_chars(&chars_of(text), home))
}

/// `base` joined with `name` as std's `PathBuf::push` does on Unix: an absolute `name` replaces
/// `base`; otherwise a `/` goes between them unless `base` is empty or already ends in `/`.
pub open spec fn join_of(base: Seq<char>, name: Seq<char>) -> Seq<char> {
    if is_absolute_path(name) || base.len() == 0 {
        name
    } else if base.last() == '/' {
        base + name
    } else {
        base + seq!['/'] + name
    }
}

pub fn join_chars(base: &Vec<char>, name: &Vec<char>) -> (r: Vec<char>)
    ensures
        r@ == join_of(base@, name@),
{
    if (name.len() > 0 && name[0] == '/') || base.len() == 0 {
        return copy_chars(name);
    }
    let mut out = copy_chars(base);
    if base[base.len() - 1] != '/' {
        out.push('/');
    }
    append_chars(&mut out, name);
    out
}

/// `base` joined with `name`.
pub fn join_path(base: &str, name: &str) -> (r: String)
    ensures
        r@ == join_of(base@, name@),
{
    string_from_chars(&join_chars(&chars_of(base), &chars_of(name)))
}

/// Application data directory below the home directory.
pub open spec fn data_dir_of(home: Seq<char>) -> Seq<char> {
    join_of(home, ".local/share/dagger"@)
}

/// Application data directory: `~/.local/share/dagger`.
pub fn data_dir(home: &str) -> (r: String)
    ensures
        r@ == data_dir_of(home@),
{
    join_path(home, ".local/share/dagger")
}

/// Where preferences are stored.
pub fn preferences_path(home: &str) -> (r: String)
    ensures
        r@ == join_of(data_dir_of(home@), "preferences.json"@),
{
    let dir = data_dir(home);
    join_path(&dir, "preferences.json")
}

/// Where the thumbnail cache is stored.
pub fn thumbs_db_path(home: &str) -> (r: String)
    ensures
        r@ == join_of(data_dir_of(home@), "thumbs.db"@),
{
    let dir = data_dir(home);
    join_path(&dir, "thumbs.db")
}

fn user_subdir(home: &str, name: &str) -> (r: String)
    ensures
        r@ == join_of(home@, name@),
{
    join_path(home, name)
}

/// A shortcut shown in the sidebar.
pub struct QuickAccessEntry {
    pub label: String,
    pub path: String,
    pub icon: String,
}

/// Names of the optional standard folders, in sidebar order.
pub open spec fn standard_folder(i: int) -> Seq<char> {
    if i == 0 {
        "Documents"@
    } else if i == 1 {
        "Downloads"@
    } else if i == 2 {
        "Desktop"@
    } else if i == 3 {
        "Pictures"@
    } else if i == 4 {
        "Music"@
    } else if i == 5 {
        "Videos"@
    } else {
        "Projects"@
    }
}

/// Sidebar icon of standard folder `i`.
pub open spec fn standard_icon(i: int) -> Seq<char> {
    if i == 0 {
        "📄"@
    } else if i == 1 {
        "⬇"@
    } else if i == 2 {
        "🖥"@
    } else if i == 3 {
        "🖼"@
    } else if i == 4 {
        "🎵"@
    } else if i == 5 {
        "🎬"@
    } else {
        "📁"@
    }
}

/// Number of optional standard folders.
pub const STANDARD_FOLDER_COUNT: usize = 7;

/// Name of standard folder `i` below the home directory.
pub fn standard_folder_name(i: usize) -> (r: &'static str)
    requires
        i < STANDARD_FOLDER_COUNT,
    ensures
        r@ == standard_folder(i as int),
{
    standard_folder_entry(i).0
}

fn standard_folder_entry(i: usize) -> (r: (&'static str, &'static str))
    requires
        i < STANDARD_FOLDER_COUNT,
    ensures
        r.0@ == standard_folder(i as int),
        r.1@ == standard_icon(i as int),
{
    if i == 0 {
        ("Documents", "📄")
    } else if i == 1 {
        ("Downloads", "⬇")
    } else if i == 2 {
        ("Desktop", "🖥")
    } else if i == 3 {
        ("Pictures", "🖼")
    } else if i == 4 {
        ("Music", "🎵")
    } else if i == 5 {
        ("Videos", "🎬")
    } else {
        ("Projects", "📁")
    }
}

/// Position of standard folder `j` among the sidebar shortcuts.
pub open spec fn folder_slot(present: Seq<bool>, j: int) -> int {
    1 + count_true(present.take(j))
}

/// Number of `true` entries.
pub open spec fn count_true(s: Seq<bool>) -> int
    decreases s.len(),
{
    if s.len() == 0 {
        0
    } else {
        count_true(s.drop_last()) + if s.last() {
            1int
        } else {
            0int
        }
    }
}

pub proof fn lemma_count_true_prefix(s: Seq<bool>, a: int, b: int)
    requires
        0 <= a <= b <= s.len(),
    ensures
        0 <= count_true(s.take(a)) <= count_true(s.take(b)) <= b,
    decreases b - a,
{
    if a < b {
        lemma_count_true_prefix(s, a, b - 1);
        assert(s.take(b).drop_last() =~= s.take(b - 1));
    } else {
        lemma_count_true_bound(s.take(a));
    }
}

pub proof fn lemma_count_true_bound(s: Seq<bool>)
    ensures
        0 <= count_true(s) <= s.len(),
    decreases s.len(),
{
    if s.len() > 0 {
        lemma_count_true_bound(s.drop_last());
    }
}

/// Sidebar shortcuts: `Home` first, then each standard folder below `home` that exists.
/// `present[i]` tells whether folder `i` (Documents, Downloads, Desktop, Pictures, Music,
/// Videos, Projects) is a directory.
pub fn quick_access_entries(home: &str, present: &Vec<bool>) -> (r: Vec<QuickAccessEntry>)
    requires
        present.len() == STANDARD_FOLDER_COUNT,
    ensures
        r.len() >= 1,
        r@[0].label@ == "Home"@,
        r@[0].path@ == home@,
        r@[0].icon@ == "🏠"@,
        r.len() == 1 + count_true(present@),
        forall|j: int|
            0 <= j < STANDARD_FOLDER_COUNT && #[trigger] present@[j] ==> r@[folder_slot(present@, j)].label@
                == standard_folder(j) && r@[folder_slot(present@, j)].path@ == join_of(
                home@,
                standard_folder(j),
            ) && r@[folder_slot(present@, j)].icon@ == standard_icon(j),
{
    let mut entries: Vec<QuickAccessEntry> = Vec::new();
    entries.push(
        QuickAccessEntry {
            label: string_from_chars(&chars_of("Home")),
            path: string_from_chars(&chars_of(home)),
            icon: string_from_chars(&chars_of("🏠")),
        },
    );
    let mut k: usize = 0;
    assert(present@.take(0) =~= Seq::<bool>::empty());
    assert(count_true(present@.take(0)) == 0);
    while k < STANDARD_FOLDER_COUNT
        invariant
            k <= STANDARD_FOLDER_COUNT,
            present.len() == STANDARD_FOLDER_COUNT,
            entries.len() >= 1,
            entries@[0].label@ == "Home"@,
            entries@[0].path@ == home@,
            entries@[0].icon@ == "🏠"@,
            entries.len() == 1 + count_true(present@.take(k as int)),
            forall|j: int| 0 <= j < k && #[trigger] present@[j] ==> folder_slot(present@, j) < entries.len(),
            forall|j: int|
                0 <= j < k && #[trigger] present@[j] ==> entries@[folder_slot(present@, j)].label@
                    == standard_folder(j) && entries@[folder_slot(present@, j)].path@ == join_of(
                    home@,
                    standard_folder(j),
                ) && entries@[folder_slot(present@, j)].icon@ == standard_icon(j),
        decreases STANDARD_FOLDER_COUNT - k,
    {
        assert(present@.take(k + 1) =~= present@.take(k as int).push(present@[k as int]));
        assert(present@.take(k + 1).drop_last() =~= present@.take(k as int));
        proof {
            assert forall|j: int| 0 <= j < k && #[trigger] present@[j] implies folder_slot(present@, j)
                < entries.len() + 0 by {
                lemma_count_true_prefix(present@, j + 1, k as int);
                assert(present@.take(j + 1).drop_last() =~= present@.take(j));
            }
            lemma_count_true_bound(present@.take(k as int));
        }
        let ghost old_len = entries.len();
        let ghost old_entries = entries@;
        if present[k] {
            let (name, icon) = standard_folder_entry(k);
            proof {
                assert(forall|j: int| 0 <= j < k && #[trigger] present@[j] ==> folder_slot(present@, j) < old_len);
            }
            entries.push(
                QuickAccessEntry {
                    label: string_from_chars(&chars_of(name)),
                    path: user_subdir(home, name),
                    icon: string_from_chars(&chars_of(icon)),
                },
            );
        }
        assert(present@[k as int] ==> folder_slot(present@, k as int) == old_len);
        assert forall|j: int| 0 <= j < k + 1 && #[trigger] present@[j] implies entries@[folder_slot(
            present@,
            j,
        )].label@ == standard_folder(j) && entries@[folder_slot(present@, j)].path@ == join_of(
            home@,
            standard_folder(j),
        ) && entries@[folder_slot(present@, j)].icon@ == standard_icon(j) by {
            lemma_count_true_bound(present@.take(j));
            if j < k {
                assert(folder_slot(present@, j) < old_len);
                assert(entries@[folder_slot(present@, j)] == old_entries[folder_slot(present@, j)]);
            }
        }
        k = k + 1;
    }
    assert(present@.take(STANDARD_FOLDER_COUNT as int) =~= present@);
    entries
}


fn ends_with_separator(v: &Vec<char>) -> (r: bool)
    ensures
        r == (v@.len() > 0 && (v@.last() == '/' || v@.last() == '\\')),
{
    v.len() > 0 && (v[v.len() - 1] == '/' || v[v.len() - 1] == '\\')
}

/// Directory to list and partial final segment for completing `input` in the path bar.
pub open spec fn completion_context_of(input: Seq<char>, home: Seq<char>) -> (Seq<char>, Seq<char>) {
    let expanded = expand_tilde_of(input, home);
    let fallback = if expanded.len() == 0 {
        (Seq::<char>::empty(), expanded)
    } else {
        (expanded, Seq::<char>::empty())
    };
    if input.len() > 0 && (input.last() == '/' || input.last() == '\\') {
        (expanded, Seq::empty())
    } else {
        match file_name_of(expanded) {
            Some(prefix) => {
                if prefix.len() == 0 {
                    fallback
                } else {
                    match parent_of(expanded) {
                        Some(parent) => {
                            if parent.len() > 0 {
                                (parent, prefix)
                            } else if expanded.len() > 0 && expanded[0] == '/' {
                                ("/"@, prefix)
                            } else {
                                fallback
                            }
                        },
                        None => {
                            if expanded.len() > 0 && expanded[0] == '/' {
                                ("/"@, prefix)
                            } else {
                                fallback
                            }
                        },
                    }
                }
            },
            None => fallback,
        }
    }
}

fn parent_chars(v: &Vec<char>) -> (r: Option<Vec<char>>)
    ensures
        match r {
            Some(p) => parent_of(v@) == Some(p@),
            None => parent_of(v@) is None,
        },
{
    let parsed = parse_path(v);
    if parsed.parts.len() == 0 {
        None
    } else {
        let n = parsed.parts.len() - 1;
        let text = render_prefix(parsed.absolute, &parsed.parts, n);
        assert(parsed.parts_view().take(n as int) =~= parsed.parts_view().drop_last());
        Some(text)
    }
}

fn completion_context_chars(input: &Vec<char>, home: &str) -> (r: (Vec<char>, Vec<char>))
    ensures
        (r.0@, r.1@) == completion_context_of(input@, home@),
{
    let expanded = expand_tilde_chars(input, home);
    if ends_with_separator(input) {
        return (expanded, Vec::new());
    }
    if let Some(prefix) = file_name_chars(&expanded) {
        if prefix.len() > 0 {
            let starts_root = expanded.len() > 0 && expanded[0] == '/';
            match parent_chars(&expanded) {
                Some(parent) => {
                    if parent.len() > 0 {
                        return (parent, prefix);
                    }
                },
                None => {},
            }
            if starts_root {
                let mut root: Vec<char> = Vec::new();
                root.push('/');
                proof {
                    reveal_strlit("/");
                }
                assert(root@ =~= "/"@);
                return (root, prefix);
            }
        }
    }
    if expanded.len() == 0 {
        (Vec::new(), expanded)
    } else {
        (expanded, Vec::new())
    }
}

/// Directory to list and partial final segment for completing `input` in the path bar.
pub fn path_completion_context(input: &str, home: &str) -> (r: (String, String))
    ensures
        (r.0@, r.1@) == completion_context_of(input@, home@),
{
    let (dir, prefix) = completion_context_chars(&chars_of(input), home);
    (string_from_chars(&dir), string_from_chars(&prefix))
}

/// Path-bar text after accepting `completion` for `input`: the partial segment is replaced
/// by the completion's name (or the name is appended after a trailing separator) and a
/// separator is added; with nothing to complete the text becomes the completion itself.
pub open spec fn applied_completion_of(input: Seq<char>, completion: Seq<char>, home: Seq<char>) -> Seq<char> {
    let prefix = completion_context_of(input, home).1;
    let name = match file_name_of(completion) {
        Some(n) => n,
        None => Seq::empty(),
    };
    let ends_sep = input.len() > 0 && (input.last() == '/' || input.last() == '\\');
    if prefix.len() == 0 && !ends_sep {
        completion
    } else {
        let kept = if prefix.len() == 0 {
            input
        } else if input.len() >= prefix.len() {
            input.take(input.len() - prefix.len())
        } else {
            Seq::empty()
        };
        let staged = kept + name;
        let sep = if staged.contains('\\') {
            '\\'
        } else {
            '/'
        };
        if staged.len() > 0 && staged.last() == sep {
            staged
        } else {
            staged.push(sep)
        }
    }
}

/// Accepts `completion` into the path-bar text `input`.
pub fn apply_path_completion(input: &mut String, completion: &str, home: &str)
    ensures
        final(input)@ == applied_completion_of(old(input)@, completion@, home@),
{
    let text = chars_of(input.as_str());
    let (_, prefix) = completion_context_chars(&text, home);
    let completion_chars = chars_of(completion);
    let name = match file_name_chars(&completion_chars) {
        Some(n) => n,
        None => Vec::new(),
    };
    let ends_sep = ends_with_separator(&text);
    if prefix.len() == 0 && !ends_sep {
        *input = string_from_chars(&completion_chars);
        return;
    }
    let mut staged = if prefix.len() == 0 {
        copy_chars(&text)
    } else if text.len() >= prefix.len() {
        slice_chars(&text, 0, text.len() - prefix.len())
    } else {
        Vec::new()
    };
    append_chars(&mut staged, &name);
    let sep = if contains_char(&staged, '\\') {
        '\\'
    } else {
        '/'
    };
    if !(staged.len() > 0 && staged[staged.len() - 1] == sep) {
        staged.push(sep);
    }
    *input = string_from_chars(&staged);
}

/// Directory the path bar names: trimmed text with `~` expanded, taken relative to `cwd`
/// unless absolute; `None` for blank text.
pub open spec fn directory_candidate_of(text: Seq<char>, cwd: Seq<char>, home: Seq<char>) -> Option<Seq<char>> {
    let trimmed = trim_of(text);
    if trimmed.len() == 0 {
        None
    } else {
        let expanded = expand_tilde_of(trimmed, home);
        if is_absolute_path(expanded) {
            Some(expanded)
        } else {
            Some(join_of(cwd, expanded))
        }
    }
}

/// Directory the path-bar text names, before checking that it exists.
pub fn directory_candidate(text: &str, cwd: &str, home: &str) -> (r: Option<String>)
    ensures
        match r {
            Some(p) => directory_candidate_of(text@, cwd@, home@) == Some(p@),
            None => directory_candidate_of(text@, cwd@, home@) is None,
        },
{
    let trimmed = trim_chars(&chars_of(text));
    if trimmed.len() == 0 {
        return None;
    }
    let expanded = expand_tilde_chars(&trimmed, home);
    if expanded.len() > 0 && expanded[0] == '/' {
        Some(string_from_chars(&expanded))
    } else {
        Some(string_from_chars(&join_chars(&chars_of(cwd), &expanded)))
    }
}

/// How a drive is listed in the sidebar: `Root (/)` for the root, else its mount point.
pub fn drive_display(path: &str) -> (r: String)
    ensures
        r@ == (if is_absolute_path(path@) && path_parts(path@).len() == 0 {
            "Root (/)"@
        } else {
            path@
        }),
{
    if is_filesystem_root(path) {
        string_from_chars(&chars_of("Root (/)"))
    } else {
        string_from_chars(&chars_of(path))
    }
}

/// `path` made absolute against the working directory `cwd` (as the caller read it; `None`
/// when it could not): absolute paths stay, relative ones are joined to `cwd`, or kept when
/// there is none.
pub fn resolve_to_absolute_path(path: &str, cwd: Option<&str>) -> (r: String)
    ensures
        r@ == (if is_absolute_path(path@) {
            path@
        } else {
            match cwd {
                Some(c) => join_of(c@, path@),
                None => path@,
            }
        }),
{
    if is_absolute_path_exec(path) {
        return string_from_chars(&chars_of(path));
    }
    match cwd {
        Some(c) => join_path(c, path),
        None => string_from_chars(&chars_of(path)),
    }
}

fn is_absolute_path_exec(path: &str) -> (r: bool)
    ensures
        r == is_absolute_path(path@),
{
    let chars = chars_of(path);
    chars.len() > 0 && chars[0] == '/'
}

/// The directory to open first for a command-line path `resolved` (absolute): itself when a
/// directory, its parent when a file, else none (the default location opens).
pub fn initial_directory(resolved: &str, is_dir: bool, is_file: bool) -> (r: Option<String>)
    ensures
        match r {
            Some(d) => if is_dir {
                d@ == resolved@
            } else {
                is_file && parent_of(resolved@) == Some(d@)
            },
            None => !is_dir && (!is_file || parent_of(resolved@) is None),
        },
{
    if is_dir {
        return Some(string_from_chars(&chars_of(resolved)));
    }
    if is_file {
        return parent_path(resolved);
    }
    None
}

} // verus!
