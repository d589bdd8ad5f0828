//! The properties dialog: what it shows while counting and once counted.
use vstd::prelude::*;

use crate::format::{decimal_chars, decimal_digits, format_size_kb, kilobytes_up, with_commas};
use crate::paths::{file_name, file_name_of, parent_of, parent_path};
use crate::text::{append_str, chars_of, copy_string, string_from_chars};

verus! {

/// What the properties dialog shows for a set of paths.
pub struct PropertiesDialog {
    pub title: String,
    pub location: String,
    pub item_count: usize,
    pub file_count: usize,
    pub folder_count: usize,
    pub size_label: String,
    pub loading: bool,
}

/// Title: the name of a single path (`Properties` when it has none), else `N items`.
pub open spec fn properties_title(paths: Seq<Seq<char>>) -> Seq<char> {
    if paths.len() == 1 {
        match file_name_of(paths[0]) {
            Some(n) => n,
            None => "Properties"@,
        }
    } else {
        decimal_digits(paths.len()) + " items"@
    }
}

/// Location: the parent of a single path (`/` when it has none), else the active location.
pub open spec fn properties_location(paths: Seq<Seq<char>>, active: Seq<char>) -> Seq<char> {
    if paths.len() == 1 {
        match parent_of(paths[0]) {
            Some(p) => p,
            None => "/"@,
        }
    } else {
        active
    }
}

/// The dialog while the sizes are being counted.
pub fn build_properties_loading(paths: &Vec<String>, active_location: &str) -> (r: PropertiesDialog)
    ensures
        r.title@ == properties_title(paths.deep_view()),
        r.location@ == properties_location(paths.deep_view(), active_location@),
        r.item_count == paths.len(),
        r.file_count == 0,
        r.folder_count == 0,
        r.size_label@ == "Calculating…"@,
        r.loading,
{
    let item_count = paths.len();
    let title = if item_count == 1 {
        assert(paths.deep_view()[0] == paths@[0]@);
        match file_name(paths[0].as_str()) {
            Some(n) => n,
            None => string_from_chars(&chars_of("Properties")),
        }
    } else {
        let mut out = decimal_chars(item_count as u64);
        append_str(&mut out, " items");
        string_from_chars(&out)
    };
    let location = if item_count == 1 {
        match parent_path(paths[0].as_str()) {
            Some(p) => p,
            None => string_from_chars(&chars_of("/")),
        }
    } else {
        string_from_chars(&chars_of(active_location))
    };
    PropertiesDialog {
        title,
        location,
        item_count,
        file_count: 0,
        folder_count: 0,
        size_label: string_from_chars(&chars_of("Calculating…")),
        loading: true,
    }
}

/// The dialog once counted: `file_count` files and `folder_count` folders holding
/// `total_bytes` bytes in all.
pub fn build_properties_summary(
    paths: &Vec<String>,
    active_location: &str,
    file_count: usize,
    folder_count: usize,
    total_bytes: u64,
) -> (r: PropertiesDialog)
    ensures
        r.title@ == properties_title(paths.deep_view()),
        r.location@ == properties_location(paths.deep_view(), active_location@),
        r.item_count == paths.len(),
        r.file_count == file_count,
        r.folder_count == folder_count,
        r.size_label@ == with_commas(kilobytes_up(total_bytes as nat)) + " KB"@,
        !r.loading,
{
    let mut dialog = build_properties_loading(paths, active_location);
    dialog.file_count = file_count;
    dialog.folder_count = folder_count;
    dialog.size_label = format_size_kb(total_bytes);
    dialog.loading = false;
    dialog
}

} // verus!
