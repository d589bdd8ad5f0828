//! Directory entries and the order in which they are listed.
use vstd::prelude::*;

use crate::paths::{
    extension_of, file_name_chars, file_name_of, name_extension, name_stem, stem_of_name,
};
use crate::format::{byte_size_text, format_byte_size};
use crate::text::{append_str, chars_of, copy_chars, string_from_chars};

verus! {

/// One entry of a directory listing. `modified_ns` is the modification time in nanoseconds
/// since the Unix epoch (0 for times before it).
pub struct FileEntry {
    pub name: String,
    pub path: String,
    pub is_dir: bool,
    pub size: u64,
    pub modified_ns: u128,
    pub is_hidden: bool,
}

pub struct FileEntryView {
    pub name: Seq<char>,
    pub path: Seq<char>,
    pub is_dir: bool,
    pub size: u64,
    pub modified_ns: u128,
    pub is_hidden: bool,
}

impl View for FileEntry {
    type V = FileEntryView;

    open spec fn view(&self) -> FileEntryView {
        FileEntryView {
            name: self.name@,
            path: self.path@,
            is_dir: self.is_dir,
            size: self.size,
            modified_ns: self.modified_ns,
            is_hidden: self.is_hidden,
        }
    }
}

/// Views of a sequence of entries.
pub open spec fn entry_views(s: Seq<FileEntry>) -> Seq<FileEntryView> {
    s.map_values(|e: FileEntry| e@)
}

/// `'A'..='Z'` mapped to lower case, other characters kept.
pub open spec fn ascii_lower_char(c: char) -> char {
    if 'A' <= c && c <= 'Z' {
        ((c as u32) + 32) as char
    } else {
        c
    }
}

pub open spec fn ascii_lower(s: Seq<char>) -> Seq<char> {
    s.map_values(|c: char| ascii_lower_char(c))
}

/// `'a'..='z'` mapped to upper case, other characters kept.
pub open spec fn ascii_upper_char(c: char) -> char {
    if 'a' <= c && c <= 'z' {
        ((c as u32) - 32) as char
    } else {
        c
    }
}

pub open spec fn ascii_upper(s: Seq<char>) -> Seq<char> {
    s.map_values(|c: char| ascii_upper_char(c))
}

fn lower_char(c: char) -> (r: char)
    ensures
        r == ascii_lower_char(c),
{
    if 'A' <= c && c <= 'Z' {
        ((c as u8) + 32) as char
    } else {
        c
    }
}

fn upper_char(c: char) -> (r: char)
    ensures
        r == ascii_upper_char(c),
{
    if 'a' <= c && c <= 'z' {
        ((c as u8) - 32) as char
    } else {
        c
    }
}

/// ASCII lower case of `v`, as std's `to_ascii_lowercase`.
pub fn ascii_lowercase(v: &Vec<char>) -> (r: Vec<char>)
    ensures
        r@ == ascii_lower(v@),
{
    let mut out: Vec<char> = Vec::new();
    let mut i: usize = 0;
    while i < v.len()
        invariant
            i <= v.len(),
            out@ =~= ascii_lower(v@.take(i as int)),
        decreases v.len() - i,
    {
        out.push(lower_char(v[i]));
        i = i + 1;
        assert(ascii_lower(v@.take(i as int)) =~= ascii_lower(v@.take(i - 1)).push(
            ascii_lower_char(v@[i - 1]),
        ));
    }
    assert(v@.take(v.len() as int) =~= v@);
    out
}

/// ASCII upper case of `v`, as std's `to_ascii_uppercase`.
pub fn ascii_uppercase(v: &Vec<char>) -> (r: Vec<char>)
    ensures
        r@ == ascii_upper(v@),
{
    let mut out: Vec<char> = Vec::new();
    let mut i: usize = 0;
    while i < v.len()
        invariant
            i <= v.len(),
            out@ =~= ascii_upper(v@.take(i as int)),
        decreases v.len() - i,
    {
        out.push(upper_char(v[i]));
        i = i + 1;
        assert(ascii_upper(v@.take(i as int)) =~= ascii_upper(v@.take(i - 1)).push(
            ascii_upper_char(v@[i - 1]),
        ));
    }
    assert(v@.take(v.len() as int) =~= v@);
    out
}

/// Extension of an entry: none for a directory, else that of its path.
pub open spec fn entry_extension(e: FileEntryView) -> Option<Seq<char>> {
    if e.is_dir {
        None
    } else {
        extension_of(e.path)
    }
}

/// Name shown for an entry: the full name for directories or when extensions are shown,
/// else the file stem of its path (the name if the path has no file name).
pub open spec fn entry_display_name(e: FileEntryView, show_extensions: bool) -> Seq<char> {
    if e.is_dir || show_extensions {
        e.name
    } else {
        match file_name_of(e.path) {
            Some(n) => stem_of_name(n),
            None => e.name,
        }
    }
}

/// Kind shown for an entry: `Folder`, `<EXT> file`, or `File`.
pub open spec fn entry_type_label(e: FileEntryView) -> Seq<char> {
    if e.is_dir {
        "Folder"@
    } else {
        match entry_extension(e) {
            Some(ext) => if ext.len() == 0 {
                "File"@
            } else {
                ascii_upper(ext) + " file"@
            },
            None => "File"@,
        }
    }
}

impl FileEntry {
    /// Extension of the entry's path; `None` for directories.
    pub fn extension(&self) -> (r: Option<String>)
        ensures
            match r {
                Some(x) => entry_extension(self@) == Some(x@),
                None => entry_extension(self@) is None,
            },
    {
        if self.is_dir {
            return None;
        }
        let path = chars_of(self.path.as_str());
        match file_name_chars(&path) {
            Some(n) => match name_extension(&n) {
                Some(x) => Some(string_from_chars(&x)),
                None => None,
            },
            None => None,
        }
    }

    /// Name shown in the file view.
    pub fn display_name(&self, show_extensions: bool) -> (r: String)
        ensures
            r@ == entry_display_name(self@, show_extensions),
    {
        if self.is_dir || show_extensions {
            return string_from_chars(&chars_of(self.name.as_str()));
        }
        let path = chars_of(self.path.as_str());
        match file_name_chars(&path) {
            Some(n) => string_from_chars(&name_stem(&n)),
            None => string_from_chars(&chars_of(self.name.as_str())),
        }
    }

    /// Kind shown in the list view.
    pub fn type_label(&self) -> (r: String)
        ensures
            r@ == entry_type_label(self@),
    {
        if self.is_dir {
            return string_from_chars(&chars_of("Folder"));
        }
        match self.extension() {
            Some(ext) => {
                if ext.as_str().is_empty() {
                    string_from_chars(&chars_of("File"))
                } else {
                    let mut out = ascii_uppercase(&chars_of(ext.as_str()));
                    append_str(&mut out, " file");
                    string_from_chars(&out)
                }
            },
            None => string_from_chars(&chars_of("File")),
        }
    }

    /// Size shown in the list view: empty for folders.
    pub fn formatted_size(&self) -> (r: String)
        ensures
            r@ == (if self.is_dir {
                Seq::<char>::empty()
            } else {
                byte_size_text(self.size as nat)
            }),
    {
        if self.is_dir {
            return String::new();
        }
        format_byte_size(self.size)
    }

    /// A copy of this entry.
    pub fn duplicate(&self) -> (r: FileEntry)
        ensures
            r@ == self@,
    {
        FileEntry {
            name: string_from_chars(&chars_of(self.name.as_str())),
            path: string_from_chars(&chars_of(self.path.as_str())),
            is_dir: self.is_dir,
            size: self.size,
            modified_ns: self.modified_ns,
            is_hidden: self.is_hidden,
        }
    }
}


/// Field the file view is sorted by.
#[derive(Clone, Copy, Debug, PartialEq, Eq, Structural)]
pub enum SortField {
    Name,
    Date,
    FileSize,
    Type,
}

/// Direction of the sort on the chosen field.
#[derive(Clone, Copy, Debug, PartialEq, Eq, Structural)]
pub enum SortOrder {
    Ascending,
    Descending,
}

/// Caption of the sort button: the field's short name, a space and an arrow for the order.
pub open spec fn sort_label(field: SortField, order: SortOrder) -> Seq<char> {
    (match field {
        SortField::Name => "Name"@,
        SortField::Date => "Date"@,
        SortField::FileSize => "Size"@,
        SortField::Type => "Type"@,
    }) + " "@ + (match order {
        SortOrder::Ascending => "↑"@,
        SortOrder::Descending => "↓"@,
    })
}

/// Caption of the sort button for `field` and `order`.
pub fn sort_button_label(field: SortField, order: SortOrder) -> (r: String)
    ensures
        r@ == sort_label(field, order),
{
    let mut out = chars_of(match field {
        SortField::Name => "Name",
        SortField::Date => "Date",
        SortField::FileSize => "Size",
        SortField::Type => "Type",
    });
    append_str(&mut out, " ");
    append_str(&mut out, match order {
        SortOrder::Ascending => "↑",
        SortOrder::Descending => "↓",
    });
    string_from_chars(&out)
}

/// Lexicographic order of two character sequences by code point: -1, 0 or 1.
pub open spec fn text_order(a: Seq<char>, b: Seq<char>) -> int
    decreases a.len(),
{
    if a.len() == 0 {
        if b.len() == 0 {
            0
        } else {
            -1
        }
    } else if b.len() == 0 {
        1
    } else if (a[0] as u32) < (b[0] as u32) {
        -1
    } else if (a[0] as u32) > (b[0] as u32) {
        1
    } else {
        text_order(a.drop_first(), b.drop_first())
    }
}

/// Order of two numbers: -1, 0 or 1.
pub open spec fn num_order(a: int, b: int) -> int {
    if a < b {
        -1
    } else if a > b {
        1
    } else {
        0
    }
}

/// Unicode lower case of a text, as std's `str::to_lowercase` computes it.
pub uninterp spec fn lowercase_of(s: Seq<char>) -> Seq<char>;

/// std's `str::to_lowercase`; the result is named `lowercase_of` of the input.
#[verifier::external_body]
fn lowercase_text(s: &str) -> (r: String)
    ensures
        r@ == lowercase_of(s@),
{
    s.to_lowercase()
}

/// Whole seconds since the epoch for a time in nanoseconds.
pub open spec fn seconds_of(ns: u128) -> int {
    (ns / 1_000_000_000) as int
}

/// Key of the `Type` column: empty for directories, else the ASCII-lowercased extension.
pub open spec fn type_key_of(e: FileEntryView) -> Seq<char> {
    match entry_extension(e) {
        Some(x) => ascii_lower(x),
        None => Seq::empty(),
    }
}

/// Order of two entries on a sort field.
pub open spec fn key_order(a: FileEntryView, b: FileEntryView, field: SortField) -> int {
    match field {
        SortField::Name => text_order(lowercase_of(a.name), lowercase_of(b.name)),
        SortField::Date => num_order(seconds_of(a.modified_ns), seconds_of(b.modified_ns)),
        SortField::FileSize => num_order(a.size as int, b.size as int),
        SortField::Type => text_order(type_key_of(a), type_key_of(b)),
    }
}

/// Listing order: directories before files, then the field's order in the chosen direction.
pub open spec fn entry_order(a: FileEntryView, b: FileEntryView, field: SortField, order: SortOrder) -> int {
    if a.is_dir != b.is_dir {
        if a.is_dir {
            -1
        } else {
            1
        }
    } else {
        match order {
            SortOrder::Ascending => key_order(a, b, field),
            SortOrder::Descending => -key_order(a, b, field),
        }
    }
}

/// `x` inserted after the last element of `s` that does not come after it, scanning from the
/// end (one step of a stable insertion sort).
pub open spec fn insert_by(s: Seq<FileEntryView>, x: FileEntryView, field: SortField, order: SortOrder) -> Seq<FileEntryView>
    decreases s.len(),
{
    if s.len() == 0 {
        seq![x]
    } else if entry_order(s.last(), x, field, order) <= 0 {
        s.push(x)
    } else {
        insert_by(s.drop_last(), x, field, order).push(s.last())
    }
}

/// Stable sort of `s` by `entry_order`.
pub open spec fn sorted_by(s: Seq<FileEntryView>, field: SortField, order: SortOrder) -> Seq<FileEntryView>
    decreases s.len(),
{
    if s.len() == 0 {
        Seq::empty()
    } else {
        insert_by(sorted_by(s.drop_last(), field, order), s.last(), field, order)
    }
}

pub fn text_order_exec(a: &Vec<char>, b: &Vec<char>) -> (r: i8)
    ensures
        r as int == text_order(a@, b@),
{
    let mut i: usize = 0;
    assert(a@.skip(0) =~= a@);
    assert(b@.skip(0) =~= b@);
    while i < a.len() && i < b.len()
        invariant
            i <= a.len(),
            i <= b.len(),
            text_order(a@, b@) == text_order(a@.skip(i as int), b@.skip(i as int)),
        decreases a.len() - i,
    {
        assert(a@.skip(i as int).drop_first() =~= a@.skip(i + 1));
        assert(b@.skip(i as int).drop_first() =~= b@.skip(i + 1));
        assert(a@.skip(i as int)[0] == a@[i as int]);
        assert(b@.skip(i as int)[0] == b@[i as int]);
        if (a[i] as u32) < (b[i] as u32) {
            return -1;
        }
        if (a[i] as u32) > (b[i] as u32) {
            return 1;
        }
        i = i + 1;
    }
    if i == a.len() {
        if i == b.len() {
            0
        } else {
            -1
        }
    } else {
        1
    }
}

fn num_order_exec(a: u64, b: u64) -> (r: i8)
    ensures
        r as int == num_order(a as int, b as int),
{
    if a < b {
        -1
    } else if a > b {
        1
    } else {
        0
    }
}

fn type_key(e: &FileEntry) -> (r: Vec<char>)
    ensures
        r@ == type_key_of(e@),
{
    match e.extension() {
        Some(x) => ascii_lowercase(&chars_of(x.as_str())),
        None => Vec::new(),
    }
}

fn key_order_exec(a: &FileEntry, b: &FileEntry, field: SortField) -> (r: i8)
    ensures
        r as int == key_order(a@, b@, field),
        -1 <= r <= 1,
{
    match field {
        SortField::Name => {
            let la = chars_of(lowercase_text(a.name.as_str()).as_str());
            let lb = chars_of(lowercase_text(b.name.as_str()).as_str());
            let r = text_order_exec(&la, &lb);
            proof { lemma_text_order_range(la@, lb@); }
            r
        },
        SortField::Date => {
            let sa = a.modified_ns / 1_000_000_000;
            let sb = b.modified_ns / 1_000_000_000;
            if sa < sb {
                -1
            } else if sa > sb {
                1
            } else {
                0
            }
        },
        SortField::FileSize => num_order_exec(a.size, b.size),
        SortField::Type => {
            let ta = type_key(a);
            let tb = type_key(b);
            let r = text_order_exec(&ta, &tb);
            proof { lemma_text_order_range(ta@, tb@); }
            r
        },
    }
}

pub proof fn lemma_text_order_range(a: Seq<char>, b: Seq<char>)
    ensures
        -1 <= text_order(a, b) <= 1,
    decreases a.len(),
{
    if a.len() > 0 && b.len() > 0 && !((a[0] as u32) < (b[0] as u32)) && !((a[0] as u32) > (
    b[0] as u32)) {
        lemma_text_order_range(a.drop_first(), b.drop_first());
    }
}

/// Listing order of two entries: negative when `a` comes first, 0 when tied.
pub fn order_entries(a: &FileEntry, b: &FileEntry, field: SortField, order: SortOrder) -> (r: i8)
    ensures
        r as int == entry_order(a@, b@, field, order),
{
    if a.is_dir != b.is_dir {
        if a.is_dir {
            -1
        } else {
            1
        }
    } else {
        let k = key_order_exec(a, b, field);
        match order {
            SortOrder::Ascending => k,
            SortOrder::Descending => -k,
        }
    }
}

fn insert_sorted(sorted: &mut Vec<FileEntry>, x: FileEntry, field: SortField, order: SortOrder)
    ensures
        entry_views(final(sorted)@) == insert_by(entry_views(old(sorted)@), x@, field, order),
{
    let ghost s = entry_views(sorted@);
    let mut j: usize = sorted.len();
    assert(s.take(s.len() as int) =~= s);
    assert(s.skip(s.len() as int) =~= Seq::<FileEntryView>::empty());
    while j > 0 && order_entries(&sorted[j - 1], &x, field, order) > 0
        invariant
            j <= sorted.len(),
            s == entry_views(sorted@),
            insert_by(s, x@, field, order) == insert_by(s.take(j as int), x@, field, order) + s.skip(
                j as int,
            ),
        decreases j,
    {
        assert(s.take(j as int).drop_last() =~= s.take(j - 1));
        assert(s.take(j as int).last() == sorted@[j - 1]@);
        assert(s.skip(j - 1) =~= seq![s[j - 1]] + s.skip(j as int));
        assert(insert_by(s.take(j - 1), x@, field, order).push(s[j - 1]) + s.skip(j as int)
            =~= insert_by(s.take(j - 1), x@, field, order) + s.skip(j - 1));
        j = j - 1;
    }
    if j > 0 {
        assert(s.take(j as int).last() == sorted@[j - 1]@);
    }
    sorted.insert(j, x);
    assert(entry_views(sorted@) =~= s.take(j as int).push(x@) + s.skip(j as int));
    if j == 0 {
        assert(s.take(0) =~= Seq::<FileEntryView>::empty());
    }
}

/// Entries in listing order: a stable sort by `entry_order`.
pub fn sort_entries_by(entries: Vec<FileEntry>, field: SortField, order: SortOrder) -> (r: Vec<FileEntry>)
    ensures
        entry_views(r@) == sorted_by(entry_views(entries@), field, order),
{
    let mut out: Vec<FileEntry> = Vec::new();
    let mut rest = entries;
    let ghost all = entry_views(rest@);
    let mut i: usize = 0;
    let n = rest.len();
    assert(all.take(0) =~= Seq::<FileEntryView>::empty());
    let mut taken: Vec<FileEntry> = Vec::new();
    while i < n
        invariant
            i <= n,
            n == all.len(),
            all == entry_views(taken@) + entry_views(rest@),
            taken.len() == i,
            entry_views(out@) == sorted_by(all.take(i as int), field, order),
        decreases n - i,
    {
        let x = rest.remove(0);
        let xc = x.duplicate();
        let ghost xv = x@;
        assert(all[i as int] == xv) by {
            assert(entry_views(taken@ + seq![x]) =~= entry_views(taken@).push(xv));
        }
        assert(all.take(i + 1).drop_last() =~= all.take(i as int));
        assert(all.take(i + 1).last() == xv);
        insert_sorted(&mut out, x, field, order);
        let ghost before = entry_views(taken@);
        taken.push(xc);
        assert(entry_views(taken@) =~= before.push(xv));
        i = i + 1;
    }
    assert(all.take(n as int) =~= all);
    out
}


pub proof fn lemma_text_order_antisymmetric(a: Seq<char>, b: Seq<char>)
    ensures
        text_order(a, b) == -text_order(b, a),
    decreases a.len(),
{
    if a.len() > 0 && b.len() > 0 && !((a[0] as u32) < (b[0] as u32)) && !((a[0] as u32) > (
    b[0] as u32)) {
        lemma_text_order_antisymmetric(a.drop_first(), b.drop_first());
    }
}

pub proof fn lemma_text_order_transitive(a: Seq<char>, b: Seq<char>, c: Seq<char>)
    requires
        text_order(a, b) <= 0,
        text_order(b, c) <= 0,
    ensures
        text_order(a, c) <= 0,
    decreases a.len(),
{
    if a.len() > 0 && b.len() > 0 && c.len() > 0 {
        if (a[0] as u32) == (b[0] as u32) && (b[0] as u32) == (c[0] as u32) {
            lemma_text_order_transitive(a.drop_first(), b.drop_first(), c.drop_first());
        }
    }
}

proof fn lemma_key_order_antisymmetric(a: FileEntryView, b: FileEntryView, field: SortField)
    ensures
        key_order(a, b, field) == -key_order(b, a, field),
{
    match field {
        SortField::Name => lemma_text_order_antisymmetric(lowercase_of(a.name), lowercase_of(b.name)),
        SortField::Type => lemma_text_order_antisymmetric(type_key_of(a), type_key_of(b)),
        _ => {},
    }
}

proof fn lemma_key_order_transitive(a: FileEntryView, b: FileEntryView, c: FileEntryView, field: SortField)
    requires
        key_order(a, b, field) <= 0,
        key_order(b, c, field) <= 0,
    ensures
        key_order(a, c, field) <= 0,
{
    match field {
        SortField::Name => lemma_text_order_transitive(
            lowercase_of(a.name),
            lowercase_of(b.name),
            lowercase_of(c.name),
        ),
        SortField::Type => lemma_text_order_transitive(type_key_of(a), type_key_of(b), type_key_of(c)),
        _ => {},
    }
}

/// Swapping the arguments of `entry_order` negates it.
pub proof fn lemma_entry_order_antisymmetric(
    a: FileEntryView,
    b: FileEntryView,
    field: SortField,
    order: SortOrder,
)
    ensures
        entry_order(a, b, field, order) == -entry_order(b, a, field, order),
{
    lemma_key_order_antisymmetric(a, b, field);
}

/// "Does not come after" is transitive.
pub proof fn lemma_entry_order_transitive(
    a: FileEntryView,
    b: FileEntryView,
    c: FileEntryView,
    field: SortField,
    order: SortOrder,
)
    requires
        entry_order(a, b, field, order) <= 0,
        entry_order(b, c, field, order) <= 0,
    ensures
        entry_order(a, c, field, order) <= 0,
{
    if a.is_dir == b.is_dir && b.is_dir == c.is_dir {
        match order {
            SortOrder::Ascending => lemma_key_order_transitive(a, b, c, field),
            SortOrder::Descending => {
                lemma_key_order_antisymmetric(a, b, field);
                lemma_key_order_antisymmetric(b, c, field);
                lemma_key_order_antisymmetric(a, c, field);
                lemma_key_order_transitive(c, b, a, field);
            },
        }
    }
}

/// No element comes after a later one.
pub open spec fn in_listing_order(s: Seq<FileEntryView>, field: SortField, order: SortOrder) -> bool {
    forall|i: int, j: int| 0 <= i < j < s.len() ==> entry_order(s[i], s[j], field, order) <= 0
}

proof fn lemma_insert_by_multiset(s: Seq<FileEntryView>, x: FileEntryView, field: SortField, order: SortOrder)
    ensures
        insert_by(s, x, field, order).to_multiset() == s.to_multiset().insert(x),
        insert_by(s, x, field, order).len() == s.len() + 1,
    decreases s.len(),
{
    broadcast use vstd::seq_lib::group_to_multiset_ensures;
    if s.len() == 0 {
        assert(seq![x] =~= Seq::<FileEntryView>::empty().push(x));
    } else if entry_order(s.last(), x, field, order) <= 0 {
    } else {
        lemma_insert_by_multiset(s.drop_last(), x, field, order);
        assert(s.drop_last().push(s.last()) =~= s);
        assert(s.to_multiset() == s.drop_last().to_multiset().insert(s.last()));
        assert(insert_by(s.drop_last(), x, field, order).push(s.last()).to_multiset()
            =~= s.to_multiset().insert(x));
    }
}

proof fn lemma_insert_by_sorted(s: Seq<FileEntryView>, x: FileEntryView, field: SortField, order: SortOrder)
    requires
        in_listing_order(s, field, order),
    ensures
        in_listing_order(insert_by(s, x, field, order), field, order),
        forall|k: int|
            0 <= k < insert_by(s, x, field, order).len() ==> #[trigger] insert_by(s, x, field, order)[k] == x
                || s.contains(insert_by(s, x, field, order)[k]),
    decreases s.len(),
{
    let r = insert_by(s, x, field, order);
    if s.len() == 0 {
    } else if entry_order(s.last(), x, field, order) <= 0 {
        assert forall|i: int, j: int| 0 <= i < j < r.len() implies entry_order(r[i], r[j], field, order)
            <= 0 by {
            if j == s.len() {
                if i < s.len() - 1 {
                    lemma_entry_order_transitive(s[i], s.last(), x, field, order);
                }
            }
        }
        assert forall|k: int| 0 <= k < r.len() implies #[trigger] r[k] == x || s.contains(r[k]) by {
            if k < s.len() {
                assert(r[k] == s[k]);
            }
        }
    } else {
        let d = s.drop_last();
        let last = s.last();
        assert(in_listing_order(d, field, order));
        lemma_insert_by_sorted(d, x, field, order);
        lemma_insert_by_multiset(d, x, field, order);
        let inner = insert_by(d, x, field, order);
        lemma_entry_order_antisymmetric(last, x, field, order);
        assert forall|i: int, j: int| 0 <= i < j < r.len() implies entry_order(r[i], r[j], field, order)
            <= 0 by {
            if j == r.len() - 1 {
                assert(r[i] == inner[i]);
                if inner[i] != x {
                    assert(d.contains(inner[i]));
                    let k = choose|k: int| 0 <= k < d.len() && d[k] == inner[i];
                    assert(s[k] == d[k]);
                    assert(entry_order(s[k], s[s.len() - 1], field, order) <= 0);
                }
            } else {
                assert(r[i] == inner[i] && r[j] == inner[j]);
            }
        }
        assert forall|k: int| 0 <= k < r.len() implies #[trigger] r[k] == x || s.contains(r[k]) by {
            if k < r.len() - 1 {
                assert(r[k] == inner[k]);
                if inner[k] != x {
                    let m = choose|m: int| 0 <= m < d.len() && d[m] == inner[k];
                    assert(s[m] == d[m]);
                }
            } else {
                assert(s[s.len() - 1] == last);
            }
        }
    }
}

/// The listing order is sorted: no entry comes after one that follows it.
pub proof fn law_sorted_is_in_listing_order(s: Seq<FileEntryView>, field: SortField, order: SortOrder)
    ensures
        in_listing_order(sorted_by(s, field, order), field, order),
    decreases s.len(),
{
    if s.len() > 0 {
        law_sorted_is_in_listing_order(s.drop_last(), field, order);
        lemma_insert_by_sorted(sorted_by(s.drop_last(), field, order), s.last(), field, order);
    }
}

/// Sorting keeps exactly the entries it was given.
pub proof fn law_sorted_keeps_entries(s: Seq<FileEntryView>, field: SortField, order: SortOrder)
    ensures
        sorted_by(s, field, order).to_multiset() == s.to_multiset(),
        sorted_by(s, field, order).len() == s.len(),
    decreases s.len(),
{
    broadcast use vstd::seq_lib::group_to_multiset_ensures;
    if s.len() > 0 {
        law_sorted_keeps_entries(s.drop_last(), field, order);
        lemma_insert_by_multiset(sorted_by(s.drop_last(), field, order), s.last(), field, order);
        assert(s.drop_last().push(s.last()) =~= s);
    }
}

/// Sorting by type ignores ASCII case: the `Type` order of two entries is the code-point order
/// of their extensions in ASCII lower case (an empty key for directories and for files without
/// an extension). So two files whose extensions differ only in ASCII case are tied, and each
/// compares alike with any third entry.
pub proof fn law_type_order_ignores_ascii_case(a: FileEntryView, b: FileEntryView, c: FileEntryView)
    ensures
        key_order(a, b, SortField::Type) == text_order(
            ascii_lower(
                match entry_extension(a) {
                    Some(x) => x,
                    None => Seq::empty(),
                },
            ),
            ascii_lower(
                match entry_extension(b) {
                    Some(x) => x,
                    None => Seq::empty(),
                },
            ),
        ),
        (entry_extension(a) matches Some(x) && entry_extension(b) matches Some(y) && ascii_lower(x)
            == ascii_lower(y)) ==> key_order(a, b, SortField::Type) == 0 && key_order(a, c, SortField::Type)
            == key_order(b, c, SortField::Type),
{
    assert(ascii_lower(Seq::<char>::empty()) =~= Seq::<char>::empty());
    lemma_text_order_antisymmetric(type_key_of(a), type_key_of(a));
}

/// Whether an entry named `name` is hidden: its name starts with `.`, or the file system marks
/// it hidden (`hidden_attribute`, which only Windows sets).
pub fn is_hidden_entry(name: &str, hidden_attribute: bool) -> (r: bool)
    ensures
        r == ((name@.len() > 0 && name@[0] == '.') || hidden_attribute),
{
    let chars = chars_of(name);
    (chars.len() > 0 && chars[0] == '.') || hidden_attribute
}

} // verus!
