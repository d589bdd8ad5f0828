//! File-clipboard payloads as Qt/KDE and GNOME file managers exchange them: a
//! `text/uri-list`, a GNOME `x-special/gnome-copied-files` text and a KDE cut marker.
use vstd::prelude::*;
use vstd::utf8::{decode_utf8, encode_utf8, valid_utf8};

use crate::text::{append_chars, append_str, chars_of, string_from_chars, trim_chars, trim_of};

verus! {

/// Whether paths on the clipboard are to be copied or moved.
#[derive(Clone, Copy, Debug, PartialEq, Eq, Structural)]
pub enum ClipboardOp {
    Copy,
    Move,
}

/// Bytes written as themselves in a file URI: letters, digits and `/ - _ . ~`.
pub open spec fn is_unreserved(b: u8) -> bool {
    (65 <= b <= 90) || (97 <= b <= 122) || (48 <= b <= 57) || b == 47 || b == 45 || b == 95 || b
        == 46 || b == 126
}

/// Upper-case hex digit for `v < 16`.
pub open spec fn hex_char(v: int) -> char {
    if v < 10 {
        (48 + v) as char
    } else {
        (65 + v - 10) as char
    }
}

/// One byte percent-encoded.
pub open spec fn encode_byte(b: u8) -> Seq<char> {
    if is_unreserved(b) {
        seq![b as char]
    } else {
        seq!['%', hex_char((b / 16) as int), hex_char((b % 16) as int)]
    }
}

/// Bytes percent-encoded, every reserved byte as `%XX`.
pub open spec fn percent_encoded(bs: Seq<u8>) -> Seq<char>
    decreases bs.len(),
{
    if bs.len() == 0 {
        Seq::empty()
    } else {
        percent_encoded(bs.drop_last()) + encode_byte(bs.last())
    }
}

/// Upper-case hex digit of a nibble.
pub fn hex_digit(value: u8) -> (c: char)
    requires
        value < 16,
    ensures
        c == hex_char(value as int),
{
    if value < 10 {
        (48u8 + value) as char
    } else {
        (65u8 + (value - 10)) as char
    }
}

/// Percent-encodes `bytes`.
pub fn percent_encode(bytes: &[u8]) -> (r: String)
    ensures
        r@ == percent_encoded(bytes@),
{
    let mut out: Vec<char> = Vec::new();
    let mut i: usize = 0;
    assert(bytes@.take(0) =~= Seq::<u8>::empty());
    while i < bytes.len()
        invariant
            i <= bytes.len(),
            out@ == percent_encoded(bytes@.take(i as int)),
        decreases bytes.len() - i,
    {
        let b = bytes[i];
        assert(bytes@.take(i + 1).drop_last() =~= bytes@.take(i as int));
        let ghost before = out@;
        if (65 <= b && b <= 90) || (97 <= b && b <= 122) || (48 <= b && b <= 57) || b == 47 || b == 45
            || b == 95 || b == 46 || b == 126 {
            out.push(b as char);
        } else {
            out.push('%');
            out.push(hex_digit(b / 16));
            out.push(hex_digit(b % 16));
        }
        assert(out@ =~= before + encode_byte(b));
        i = i + 1;
    }
    assert(bytes@.take(bytes.len() as int) =~= bytes@);
    string_from_chars(&out)
}

/// Value of a hex digit byte, or -1.
pub open spec fn hex_value(b: u8) -> int {
    if 48 <= b <= 57 {
        b - 48
    } else if 97 <= b <= 102 {
        b - 87
    } else if 65 <= b <= 70 {
        b - 55
    } else {
        -1
    }
}

/// Value of the two bytes after a `%` as std's `u8::from_str_radix(_, 16)` reads them
/// (two hex digits, or `+` and one hex digit), or -1.
pub open spec fn pair_value(b1: u8, b2: u8) -> int {
    if hex_value(b1) >= 0 && hex_value(b2) >= 0 {
        16 * hex_value(b1) + hex_value(b2)
    } else if b1 == 43 && hex_value(b2) >= 0 {
        hex_value(b2)
    } else {
        -1
    }
}

/// Bytes with every decodable `%XX` (not ending the input) turned into the character with that
/// code, and every other byte taken as the character with its code.
pub open spec fn percent_decoded(bs: Seq<u8>) -> Seq<char>
    decreases bs.len(),
{
    if bs.len() == 0 {
        Seq::empty()
    } else if bs[0] == 37 && 2 < bs.len() && pair_value(bs[1], bs[2]) >= 0 {
        seq![pair_value(bs[1], bs[2]) as char] + percent_decoded(bs.skip(3))
    } else {
        seq![bs[0] as char] + percent_decoded(bs.skip(1))
    }
}

fn hex_val(b: u8) -> (r: i16)
    ensures
        r as int == hex_value(b),
{
    if 48 <= b && b <= 57 {
        (b - 48) as i16
    } else if 97 <= b && b <= 102 {
        (b - 87) as i16
    } else if 65 <= b && b <= 70 {
        (b - 55) as i16
    } else {
        -1
    }
}

fn pair_val(b1: u8, b2: u8) -> (r: i16)
    ensures
        r as int == pair_value(b1, b2),
        -1 <= r < 256,
{
    let h1 = hex_val(b1);
    let h2 = hex_val(b2);
    if h1 >= 0 && h2 >= 0 {
        16 * h1 + h2
    } else if b1 == 43 && h2 >= 0 {
        h2
    } else {
        -1
    }
}

/// Percent-decodes the bytes of `bytes`.
pub fn percent_decode_bytes(bytes: &[u8]) -> (r: Vec<char>)
    ensures
        r@ == percent_decoded(bytes@),
{
    let mut out: Vec<char> = Vec::new();
    let mut i: usize = 0;
    let ghost bs = bytes@;
    assert(bs.skip(0) =~= bs);
    while i < bytes.len()
        invariant
            i <= bytes.len(),
            bs == bytes@,
            out@ + percent_decoded(bs.skip(i as int)) == percent_decoded(bs),
        decreases bytes.len() - i,
    {
        let ghost rest = bs.skip(i as int);
        let ghost before = out@;
        assert(rest[0] == bytes[i as int]);
        if bytes[i] == 37 && bytes.len() > 2 && i < bytes.len() - 2 {
            let v = pair_val(bytes[i + 1], bytes[i + 2]);
            assert(rest[1] == bytes@[i + 1] && rest[2] == bytes@[i + 2]);
            if v >= 0 {
                out.push((v as u8) as char);
                assert(rest.skip(3) =~= bs.skip(i + 3));
                assert(out@ + percent_decoded(bs.skip(i + 3)) =~= before + percent_decoded(rest));
                i = i + 3;
                continue;
            }
        }
        out.push(bytes[i] as char);
        assert(rest.skip(1) =~= bs.skip(i + 1));
        assert(out@ + percent_decoded(bs.skip(i + 1)) =~= before + percent_decoded(rest));
        i = i + 1;
    }
    assert(bs.skip(bytes.len() as int) =~= Seq::<u8>::empty());
    assert(out@ + Seq::<char>::empty() =~= out@);
    out
}

/// Percent-decodes the UTF-8 bytes of `input`; each undecoded byte becomes the character with
/// its code.
pub fn percent_decode(input: &str) -> (r: String)
    ensures
        r@ == percent_decoded(vstd::utf8::encode_utf8(input@)),
{
    string_from_chars(&percent_decode_bytes(input.as_bytes()))
}

/// The UTF-8 bytes of a `String`.
fn utf8_bytes(s: String) -> (r: Vec<u8>)
    ensures
        r@ == encode_utf8(s@),
{
    let bytes = s.as_str().as_bytes();
    let mut out: Vec<u8> = Vec::new();
    let mut i: usize = 0;
    while i < bytes.len()
        invariant
            i <= bytes.len(),
            bytes@ == encode_utf8(s@),
            out@ == bytes@.take(i as int),
        decreases bytes.len() - i,
    {
        out.push(bytes[i]);
        assert(bytes@.take(i + 1) =~= bytes@.take(i as int).push(bytes@[i as int]));
        i = i + 1;
    }
    assert(bytes@.take(i as int) =~= bytes@);
    out
}

/// Message of std's `FromUtf8Error` for bytes that are not UTF-8.
pub uninterp spec fn utf8_error_text(bytes: Seq<u8>) -> Seq<char>;

/// std's `String::from_utf8`: the text when `bytes` are valid UTF-8, else the error's message.
#[verifier::external_body]
fn utf8_text(bytes: Vec<u8>) -> (r: Result<String, String>)
    ensures
        match r {
            Ok(s) => valid_utf8(bytes@) && s@ == decode_utf8(bytes@),
            Err(e) => !valid_utf8(bytes@) && e@ == utf8_error_text(bytes@),
        },
{
    String::from_utf8(bytes).map_err(|error| error.to_string())
}

/// `file://` URI of an absolute path: the path's UTF-8 bytes percent-encoded.
pub open spec fn file_uri_of(path: Seq<char>) -> Seq<char> {
    "file://"@ + percent_encoded(encode_utf8(path))
}

/// `file://` URI of an absolute path.
pub fn file_uri(path: &str) -> (r: String)
    ensures
        r@ == file_uri_of(path@),
{
    let encoded = percent_encode(path.as_bytes());
    let mut out = chars_of("file://");
    append_str(&mut out, encoded.as_str());
    string_from_chars(&out)
}

/// Items joined by `sep`.
pub open spec fn join_with(items: Seq<Seq<char>>, sep: Seq<char>) -> Seq<char>
    decreases items.len(),
{
    if items.len() == 0 {
        Seq::empty()
    } else if items.len() == 1 {
        items[0]
    } else {
        join_with(items.drop_last(), sep) + sep + items.last()
    }
}

pub open spec fn file_uris_of(paths: Seq<Seq<char>>) -> Seq<Seq<char>> {
    paths.map_values(|p: Seq<char>| file_uri_of(p))
}

/// Word for the operation in the GNOME format.
pub open spec fn action_word(op: ClipboardOp) -> Seq<char> {
    match op {
        ClipboardOp::Copy => "copy"@,
        ClipboardOp::Move => "cut"@,
    }
}

/// `text/uri-list` text: one `file://` URI per path, separated by CRLF.
pub open spec fn uri_list_text(paths: Seq<Seq<char>>) -> Seq<char> {
    join_with(file_uris_of(paths), "\r\n"@)
}

/// GNOME text: the action word, then the URIs, each line ended by CRLF.
pub open spec fn gnome_text(paths: Seq<Seq<char>>, op: ClipboardOp) -> Seq<char> {
    action_word(op) + "\r\n"@ + uri_list_text(paths) + "\r\n"@
}

/// The three clipboard representations of a set of files.
pub struct FileClipboardPayload {
    pub uri_list: Vec<u8>,
    pub gnome: Vec<u8>,
    pub kde_cut: Option<Vec<u8>>,
}

/// Clipboard payload for absolute `paths`: the URI list, the GNOME text, and for a move the
/// KDE cut marker `1`.
pub fn build_payload(paths: &Vec<String>, op: ClipboardOp) -> (r: Result<FileClipboardPayload, String>)
    ensures
        r matches Ok(p) && p.uri_list@ == encode_utf8(uri_list_text(paths.deep_view()))
            && p.gnome@ == encode_utf8(gnome_text(paths.deep_view(), op)) && (match op {
            ClipboardOp::Move => p.kde_cut matches Some(k) && k@ == seq![49u8],
            ClipboardOp::Copy => p.kde_cut is None,
        }),
{
    let ghost pv = paths.deep_view();
    let mut joined: Vec<char> = Vec::new();
    let mut i: usize = 0;
    assert(pv.take(0) =~= Seq::<Seq<char>>::empty());
    assert(file_uris_of(pv.take(0)) =~= Seq::<Seq<char>>::empty());
    while i < paths.len()
        invariant
            i <= paths.len(),
            pv == paths.deep_view(),
            joined@ == join_with(file_uris_of(pv.take(i as int)), "\r\n"@),
        decreases paths.len() - i,
    {
        let uri = file_uri(paths[i].as_str());
        let ghost before = joined@;
        if i > 0 {
            append_str(&mut joined, "\r\n");
        }
        append_str(&mut joined, uri.as_str());
        let ghost us = file_uris_of(pv.take(i + 1));
        assert(us.drop_last() =~= file_uris_of(pv.take(i as int)));
        assert(us.last() == file_uri_of(paths@[i as int]@));
        assert(pv[i as int] == paths@[i as int]@);
        if i == 0 {
            assert(joined@ =~= us[0]);
        } else {
            assert(joined@ =~= join_with(us.drop_last(), "\r\n"@) + "\r\n"@ + us.last());
        }
        i = i + 1;
    }
    assert(pv.take(paths.len() as int) =~= pv);
    let mut gnome = match op {
        ClipboardOp::Copy => chars_of("copy"),
        ClipboardOp::Move => chars_of("cut"),
    };
    append_str(&mut gnome, "\r\n");
    append_chars(&mut gnome, &joined);
    append_str(&mut gnome, "\r\n");
    let kde_cut = match op {
        ClipboardOp::Move => {
            let mut k: Vec<u8> = Vec::new();
            k.push(49u8);
            assert(k@ =~= seq![49u8]);
            Some(k)
        },
        ClipboardOp::Copy => None,
    };
    Ok(
        FileClipboardPayload {
            uri_list: utf8_bytes(string_from_chars(&joined)),
            gnome: utf8_bytes(string_from_chars(&gnome)),
            kde_cut,
        },
    )
}

/// Segments of `s` between occurrences of `c` (n occurrences give n + 1 segments).
pub open spec fn split_on(s: Seq<char>, c: char) -> Seq<Seq<char>>
    decreases s.len(),
{
    if s.len() == 0 {
        seq![Seq::empty()]
    } else {
        let prev = split_on(s.drop_last(), c);
        if s.last() == c {
            prev.push(Seq::empty())
        } else {
            prev.update(prev.len() - 1, prev.last().push(s.last()))
        }
    }
}

pub proof fn lemma_split_on_len(s: Seq<char>, c: char)
    ensures
        split_on(s, c).len() >= 1,
    decreases s.len(),
{
    if s.len() > 0 {
        lemma_split_on_len(s.drop_last(), c);
    }
}

/// Lines of a text split at `\n`, as std's `str::lines` gives them before trimming: no final
/// empty line after a trailing newline. (A `\r` before the `\n` stays; every caller trims.)
pub open spec fn text_lines(s: Seq<char>) -> Seq<Seq<char>> {
    let segs = split_on(s, '\n');
    if segs.last().len() == 0 {
        segs.drop_last()
    } else {
        segs
    }
}

fn split_lines(s: &Vec<char>) -> (r: Vec<Vec<char>>)
    ensures
        r.deep_view() == text_lines(s@),
{
    let mut done: Vec<Vec<char>> = Vec::new();
    let mut cur: Vec<char> = Vec::new();
    let mut i: usize = 0;
    assert(s@.take(0) =~= Seq::<char>::empty());
    assert(done.deep_view().push(cur@) =~= split_on(s@.take(0), '\n'));
    while i < s.len()
        invariant
            i <= s.len(),
            done.deep_view().push(cur@) == split_on(s@.take(i as int), '\n'),
        decreases s.len() - i,
    {
        let c = s[i];
        assert(s@.take(i + 1).drop_last() =~= s@.take(i as int));
        let ghost before = done.deep_view();
        let ghost cur_before = cur@;
        if c == '\n' {
            let piece = cur;
            proof {
                crate::paths::lemma_char_vec_deep_view(piece);
            }
            done.push(piece);
            cur = Vec::new();
            assert(done.deep_view() =~= before.push(piece@));
            assert(done.deep_view().push(cur@) =~= before.push(cur_before).push(Seq::empty()));
        } else {
            cur.push(c);
            assert(done.deep_view().push(cur@) =~= before.push(cur_before).update(
                before.len() as int,
                cur_before.push(c),
            ));
        }
        i = i + 1;
    }
    assert(s@.take(s.len() as int) =~= s@);
    if cur.len() == 0 {
        assert(done.deep_view() =~= done.deep_view().push(cur@).drop_last());
        done
    } else {
        let ghost before = done.deep_view();
        let piece = cur;
        proof {
            crate::paths::lemma_char_vec_deep_view(piece);
        }
        done.push(piece);
        assert(done.deep_view() =~= before.push(piece@));
        done
    }
}

/// Path named by one clipboard line: blank lines name none, `file://` URIs are
/// percent-decoded, anything else is taken as a path as it stands (all after trimming).
pub open spec fn line_path(line: Seq<char>) -> Option<Seq<char>> {
    let t = trim_of(line);
    if t.len() == 0 {
        None
    } else if t.len() >= 7 && t.take(7) == "file://"@ {
        Some(percent_decoded(encode_utf8(t.skip(7))))
    } else {
        Some(t)
    }
}

fn starts_with_file_scheme(t: &Vec<char>) -> (r: bool)
    ensures
        r == (t@.len() >= 7 && t@.take(7) == "file://"@),
{
    let scheme = chars_of("file://");
    proof {
        reveal_strlit("file://");
    }
    let r = crate::text::starts_with_chars(t, &scheme);
    assert(t@.len() >= 7 ==> t@.subrange(0, 7) =~= t@.take(7));
    r
}

fn line_path_exec(line: &Vec<char>) -> (r: Option<String>)
    ensures
        match r {
            Some(p) => line_path(line@) == Some(p@),
            None => line_path(line@) is None,
        },
{
    let t = trim_chars(line);
    if t.len() == 0 {
        return None;
    }
    if starts_with_file_scheme(&t) {
        let rest = crate::text::slice_chars(&t, 7, t.len());
        assert(rest@ =~= t@.skip(7));
        let rest_text = string_from_chars(&rest);
        return Some(string_from_chars(&percent_decode_bytes(rest_text.as_str().as_bytes())));
    }
    Some(string_from_chars(&t))
}

/// Path named by one clipboard line.
pub fn parse_uri_line(line: &str) -> (r: Option<String>)
    ensures
        match r {
            Some(p) => line_path(line@) == Some(p@),
            None => line_path(line@) is None,
        },
{
    line_path_exec(&chars_of(line))
}

/// Paths named by lines, in order (lines naming none are passed over).
pub open spec fn line_paths(lines: Seq<Seq<char>>) -> Seq<Seq<char>>
    decreases lines.len(),
{
    if lines.len() == 0 {
        Seq::empty()
    } else {
        match line_path(lines.last()) {
            Some(p) => line_paths(lines.drop_last()).push(p),
            None => line_paths(lines.drop_last()),
        }
    }
}

/// A `text/uri-list` line that is neither blank nor a `#` comment once trimmed.
pub open spec fn is_uri_entry(line: Seq<char>) -> bool {
    trim_of(line).len() > 0 && trim_of(line)[0] != '#'
}

/// Lines of a `text/uri-list` that name paths.
pub open spec fn uri_entries(lines: Seq<Seq<char>>) -> Seq<Seq<char>>
    decreases lines.len(),
{
    if lines.len() == 0 {
        Seq::empty()
    } else if is_uri_entry(lines.last()) {
        uri_entries(lines.drop_last()).push(lines.last())
    } else {
        uri_entries(lines.drop_last())
    }
}

/// Paths of a `text/uri-list`.
pub open spec fn uri_list_paths(data: Seq<char>) -> Seq<Seq<char>> {
    line_paths(uri_entries(text_lines(data)))
}

fn collect_line_paths(lines: &Vec<Vec<char>>, from: usize, skip_comments: bool) -> (r: Vec<String>)
    requires
        from <= lines.len(),
    ensures
        ({
            let ls = lines.deep_view().skip(from as int);
            r.deep_view() == (if skip_comments {
                line_paths(uri_entries(ls))
            } else {
                line_paths(ls)
            })
        }),
{
    let ghost lv = lines.deep_view();
    let mut out: Vec<String> = Vec::new();
    let mut k: usize = from;
    let ghost kept: Seq<Seq<char>> = Seq::empty();
    assert(lv.subrange(from as int, from as int) =~= Seq::<Seq<char>>::empty());
    while k < lines.len()
        invariant
            from <= k <= lines.len(),
            lv == lines.deep_view(),
            kept == (if skip_comments {
                uri_entries(lv.subrange(from as int, k as int))
            } else {
                lv.subrange(from as int, k as int)
            }),
            out.deep_view() == line_paths(kept),
        decreases lines.len() - k,
    {
        proof {
            crate::paths::lemma_char_vec_deep_view(lines@[k as int]);
        }
        let ghost sub = lv.subrange(from as int, k + 1);
        assert(sub.drop_last() =~= lv.subrange(from as int, k as int));
        assert(sub.last() == lines@[k as int]@);
        let t = trim_chars(&lines[k]);
        let entry = !skip_comments || (t.len() > 0 && t[0] != '#');
        if entry {
            let ghost before = out.deep_view();
            let ghost old_kept = kept;
            proof {
                kept = kept.push(lines@[k as int]@);
            }
            assert(kept.drop_last() =~= old_kept);
            assert(kept.last() == lines@[k as int]@);
            match line_path_exec(&lines[k]) {
                Some(p) => {
                    out.push(p);
                    assert(out.deep_view() =~= before.push(p@));
                },
                None => {},
            }
        }
        k = k + 1;
    }
    assert(lv.subrange(from as int, lines.len() as int) =~= lv.skip(from as int));
    out
}

/// Paths of a `text/uri-list`: blank and `#` comment lines are passed over.
pub fn parse_uri_list(data: &str) -> (r: Vec<String>)
    ensures
        r.deep_view() == uri_list_paths(data@),
{
    let lines = split_lines(&chars_of(data));
    let r = collect_line_paths(&lines, 0, true);
    assert(lines.deep_view().skip(0) =~= lines.deep_view());
    r
}

/// Operation and paths of a GNOME clipboard text: `cut` on the first line means a move,
/// anything else a copy; `None` without a path.
pub open spec fn gnome_contents(data: Seq<char>) -> Option<(ClipboardOp, Seq<Seq<char>>)> {
    let lines = text_lines(data);
    if lines.len() == 0 {
        None
    } else {
        let op = if trim_of(lines[0]) == "cut"@ {
            ClipboardOp::Move
        } else {
            ClipboardOp::Copy
        };
        let paths = line_paths(lines.skip(1));
        if paths.len() == 0 {
            None
        } else {
            Some((op, paths))
        }
    }
}

/// Operation and paths of a GNOME clipboard text.
pub fn parse_gnome(data: &str) -> (r: Option<(ClipboardOp, Vec<String>)>)
    ensures
        match r {
            Some((op, paths)) => gnome_contents(data@) == Some((op, paths.deep_view())),
            None => gnome_contents(data@) is None,
        },
{
    let lines = split_lines(&chars_of(data));
    if lines.len() == 0 {
        return None;
    }
    proof {
        crate::paths::lemma_char_vec_deep_view(lines@[0]);
    }
    let first = trim_chars(&lines[0]);
    let cut = chars_of("cut");
    let op = if crate::text::chars_eq(&first, &cut) {
        ClipboardOp::Move
    } else {
        ClipboardOp::Copy
    };
    let paths = collect_line_paths(&lines, 1, false);
    if paths.len() == 0 {
        None
    } else {
        Some((op, paths))
    }
}

/// A KDE cut marker starting with `1` means a move.
pub fn parse_kde_cut(data: &[u8]) -> (r: ClipboardOp)
    ensures
        r == (if data@.len() > 0 && data@[0] == 49 {
            ClipboardOp::Move
        } else {
            ClipboardOp::Copy
        }),
{
    if data.len() > 0 && data[0] == 49 {
        ClipboardOp::Move
    } else {
        ClipboardOp::Copy
    }
}


/// Operation told by an optional KDE cut marker.
pub open spec fn kde_op(kde_cut: Option<Seq<u8>>) -> ClipboardOp {
    match kde_cut {
        Some(d) => if d.len() > 0 && d[0] == 49 {
            ClipboardOp::Move
        } else {
            ClipboardOp::Copy
        },
        None => ClipboardOp::Copy,
    }
}

/// What the system clipboard offers, decided from its formats: the GNOME text when it decodes
/// and names paths; otherwise the URI list (its read error, or a UTF-8 error, or no paths, are
/// errors) with the operation told by the KDE cut marker.
pub open spec fn clipboard_outcome(
    gnome: Option<Seq<u8>>,
    uri_list: Result<Seq<u8>, Seq<char>>,
    kde_cut: Option<Seq<u8>>,
) -> Result<(Seq<Seq<char>>, ClipboardOp), Seq<char>> {
    if gnome matches Some(g) && valid_utf8(g) && gnome_contents(decode_utf8(g)) is Some {
        let (op, paths) = gnome_contents(decode_utf8(gnome->0)).unwrap();
        Ok((paths, op))
    } else {
        match uri_list {
            Err(e) => Err(e),
            Ok(u) => if !valid_utf8(u) {
                Err("Invalid UTF-8 in text/uri-list: "@ + utf8_error_text(u))
            } else if uri_list_paths(decode_utf8(u)).len() == 0 {
                Err("Clipboard does not contain file paths"@)
            } else {
                Ok((uri_list_paths(decode_utf8(u)), kde_op(kde_cut)))
            },
        }
    }
}

pub open spec fn bytes_view(b: Option<Vec<u8>>) -> Option<Seq<u8>> {
    match b {
        Some(v) => Some(v@),
        None => None,
    }
}

/// Paths and operation offered by the system clipboard, from what was read of its GNOME,
/// URI-list and KDE-cut formats (`None` or an error where a read failed).
pub fn clipboard_from_formats(
    gnome: Option<Vec<u8>>,
    uri_list: Result<Vec<u8>, String>,
    kde_cut: Option<Vec<u8>>,
) -> (r: Result<(Vec<String>, ClipboardOp), String>)
    ensures
        match (r, clipboard_outcome(
            bytes_view(gnome),
            match uri_list {
                Ok(u) => Ok(u@),
                Err(e) => Err(e@),
            },
            bytes_view(kde_cut),
        )) {
            (Ok((paths, op)), Ok((ps, o))) => paths.deep_view() == ps && op == o,
            (Err(e), Err(m)) => e@ == m,
            _ => false,
        },
{
    let ghost gv = bytes_view(gnome);
    if let Some(data) = gnome {
        match utf8_text(data) {
            Ok(text) => {
                if let Some((op, paths)) = parse_gnome(text.as_str()) {
                    return Ok((paths, op));
                }
            },
            Err(_) => {},
        }
    }
    let uri_data = match uri_list {
        Ok(d) => d,
        Err(e) => {
            return Err(e);
        },
    };
    let ghost ud = uri_data@;
    let uri_text = match utf8_text(uri_data) {
        Ok(t) => t,
        Err(message) => {
            let mut out = chars_of("Invalid UTF-8 in text/uri-list: ");
            append_str(&mut out, message.as_str());
            return Err(string_from_chars(&out));
        },
    };
    let paths = parse_uri_list(uri_text.as_str());
    if paths.len() == 0 {
        return Err(string_from_chars(&chars_of("Clipboard does not contain file paths")));
    }
    let op = match kde_cut {
        Some(d) => parse_kde_cut(d.as_slice()),
        None => ClipboardOp::Copy,
    };
    Ok((paths, op))
}

/// Payload to place on the system clipboard for `paths`; an empty list is refused.
pub fn clipboard_payload(paths: &Vec<String>, op: ClipboardOp) -> (r: Result<FileClipboardPayload, String>)
    ensures
        paths@.len() == 0 ==> (r matches Err(e) && e@ == "No paths to place on clipboard"@),
        paths@.len() > 0 ==> (r matches Ok(p) && p.uri_list@ == encode_utf8(
            uri_list_text(paths.deep_view()),
        ) && p.gnome@ == encode_utf8(gnome_text(paths.deep_view(), op)) && (match op {
            ClipboardOp::Move => p.kde_cut matches Some(k) && k@ == seq![49u8],
            ClipboardOp::Copy => p.kde_cut is None,
        })),
{
    if paths.len() == 0 {
        return Err(string_from_chars(&chars_of("No paths to place on clipboard")));
    }
    build_payload(paths, op)
}

} // verus!
