//! What the clipboard payload of a set of paths reads back as.
use vstd::prelude::*;
use vstd::utf8::{decode_utf8, encode_utf8, encode_scalar, valid_utf8};

use crate::text::{first_kept, is_white, kept_end, trim_of};
use crate::clipboard::{
    action_word, clipboard_outcome, file_uris_of, gnome_contents, gnome_text, is_uri_entry, join_with,
    lemma_split_on_len, line_paths, split_on, text_lines, uri_entries, uri_list_paths, uri_list_text,
    ClipboardOp, line_path, encode_byte, file_uri_of, hex_char, hex_value, is_unreserved, pair_value, percent_decoded, percent_encoded,
};

verus! {

/// Every character of `s` is ASCII.
pub open spec fn ascii_text(s: Seq<char>) -> bool {
    forall|i: int| 0 <= i < s.len() ==> ((#[trigger] s[i]) as u32) < 128
}

/// The bytes of ASCII characters.
pub open spec fn char_bytes(s: Seq<char>) -> Seq<u8> {
    s.map_values(|c: char| c as u8)
}

/// Bytes read back as the characters with their codes.
pub open spec fn byte_chars(bs: Seq<u8>) -> Seq<char> {
    bs.map_values(|b: u8| b as char)
}

proof fn lemma_ascii_scalar(c: char)
    requires
        (c as u32) < 128,
    ensures
        encode_scalar(c as u32) == seq![c as u8],
{
    let u = c as u32;
    assert((u & 0x7F) as u8 == u as u8) by (bit_vector)
        requires
            u < 128,
    ;
    assert(u as u8 == c as u8);
}

/// UTF-8 leaves ASCII text byte for byte.
pub proof fn lemma_ascii_utf8(s: Seq<char>)
    requires
        ascii_text(s),
    ensures
        encode_utf8(s) == char_bytes(s),
    decreases s.len(),
{
    if s.len() > 0 {
        let rest = s.drop_first();
        assert forall|i: int| 0 <= i < rest.len() implies ((#[trigger] rest[i]) as u32) < 128 by {
            assert(rest[i] == s[i + 1]);
        }
        lemma_ascii_utf8(rest);
        lemma_ascii_scalar(s[0]);
        assert(char_bytes(s) =~= seq![s[0] as u8] + char_bytes(rest));
    }
}

proof fn lemma_encoded_split(a: Seq<u8>, b: Seq<u8>)
    ensures
        percent_encoded(a + b) == percent_encoded(a) + percent_encoded(b),
    decreases b.len(),
{
    if b.len() == 0 {
        assert(a + b =~= a);
    } else {
        lemma_encoded_split(a, b.drop_last());
        assert((a + b).drop_last() =~= a + b.drop_last());
        assert((a + b).last() == b.last());
    }
}

proof fn lemma_encoded_first(bs: Seq<u8>)
    requires
        bs.len() > 0,
    ensures
        percent_encoded(bs) == encode_byte(bs[0]) + percent_encoded(bs.drop_first()),
{
    assert(bs =~= seq![bs[0]] + bs.drop_first());
    lemma_encoded_split(seq![bs[0]], bs.drop_first());
    let one = seq![bs[0]];
    assert(one.drop_last() =~= Seq::<u8>::empty());
    assert(one.last() == bs[0]);
    assert(percent_encoded(one) =~= percent_encoded(Seq::<u8>::empty()) + encode_byte(bs[0]));
    assert(percent_encoded(one) =~= encode_byte(bs[0]));
}

proof fn lemma_hex_roundtrip(v: int)
    requires
        0 <= v < 16,
    ensures
        (hex_char(v) as u32) < 128,
        hex_value(hex_char(v) as u8) == v,
        hex_char(v) != '%',
{
}

proof fn lemma_encode_byte(b: u8)
    ensures
        ascii_text(encode_byte(b)),
        encode_byte(b).len() == 1 || encode_byte(b).len() == 3,
        forall|i: int| 0 <= i < encode_byte(b).len() ==> #[trigger] encode_byte(b)[i] == '%' || is_unreserved(
            encode_byte(b)[i] as u8,
        ) || hex_value(encode_byte(b)[i] as u8) >= 0,
{
    if !is_unreserved(b) {
        lemma_hex_roundtrip((b / 16) as int);
        lemma_hex_roundtrip((b % 16) as int);
    }
}

/// Percent-encoding is ASCII.
pub proof fn lemma_encoded_ascii(bs: Seq<u8>)
    ensures
        ascii_text(percent_encoded(bs)),
    decreases bs.len(),
{
    if bs.len() > 0 {
        lemma_encoded_ascii(bs.drop_last());
        lemma_encode_byte(bs.last());
        let a = percent_encoded(bs.drop_last());
        let e = encode_byte(bs.last());
        assert forall|i: int| 0 <= i < (a + e).len() implies ((#[trigger] (a + e)[i]) as u32) < 128 by {
            if i < a.len() {
                assert((a + e)[i] == a[i]);
            } else {
                assert((a + e)[i] == e[i - a.len()]);
            }
        }
    }
}

/// Decoding a percent-encoding gives back the bytes encoded, each as the character with its code.
pub proof fn law_percent_roundtrip(bs: Seq<u8>)
    ensures
        percent_decoded(char_bytes(percent_encoded(bs))) == byte_chars(bs),
    decreases bs.len(),
{
    if bs.len() > 0 {
        let b = bs[0];
        let rest = bs.drop_first();
        lemma_encoded_first(bs);
        law_percent_roundtrip(rest);
        let e = encode_byte(b);
        let r = percent_encoded(rest);
        let all = char_bytes(e + r);
        assert(char_bytes(e + r) =~= char_bytes(e) + char_bytes(r));
        if is_unreserved(b) {
            assert(all[0] == b);
            assert(all.skip(1) =~= char_bytes(r));
        } else {
            lemma_hex_roundtrip((b / 16) as int);
            lemma_hex_roundtrip((b % 16) as int);
            assert(all[0] == 37u8);
            assert(all[1] == hex_char((b / 16) as int) as u8);
            assert(all[2] == hex_char((b % 16) as int) as u8);
            assert(pair_value(all[1], all[2]) == b);
            assert(all.skip(3) =~= char_bytes(r));
        }
        assert(byte_chars(bs) =~= seq![b as char] + byte_chars(rest));
    }
}

proof fn lemma_char_byte(c: char)
    requires
        (c as u32) < 128,
    ensures
        ((c as u8) as char) == c,
        (c as u8) as u32 == c as u32,
{
    let u = c as u32;
    assert((u as u8) as u32 == u) by (bit_vector)
        requires
            u < 128,
    ;
    assert(c as u8 == u as u8);
    vstd::utf8::char_u32_cast(c, u);
}

/// ASCII text read back from its bytes is itself.
pub proof fn lemma_ascii_bytes_chars(s: Seq<char>)
    requires
        ascii_text(s),
    ensures
        byte_chars(char_bytes(s)) == s,
{
    assert forall|i: int| 0 <= i < s.len() implies #[trigger] byte_chars(char_bytes(s))[i] == s[i] by {
        lemma_char_byte(s[i]);
    }
    assert(byte_chars(char_bytes(s)) =~= s);
}

/// Whether no character of `s` is whitespace.
pub open spec fn no_white(s: Seq<char>) -> bool {
    forall|i: int| 0 <= i < s.len() ==> !is_white(#[trigger] s[i])
}

proof fn lemma_trim_plain(s: Seq<char>)
    requires
        s.len() > 0,
        !is_white(s[0]),
        !is_white(s.last()),
    ensures
        trim_of(s) == s,
        trim_of(s.push('\r')) == s,
{
    assert(first_kept(s, 0) == 0);
    assert(kept_end(s, s.len() as int) == s.len());
    assert(s.subrange(0, s.len() as int) =~= s);
    let t = s.push('\r');
    assert(first_kept(t, 0) == 0);
    assert(is_white(t[s.len() as int]));
    assert(t[s.len() - 1] == s.last());
    assert(kept_end(t, s.len() as int) == s.len());
    assert(kept_end(t, t.len() as int) == s.len());
    assert(t.subrange(0, s.len() as int) =~= s);
}

proof fn lemma_encoded_no_white(bs: Seq<u8>)
    ensures
        no_white(percent_encoded(bs)),
    decreases bs.len(),
{
    if bs.len() > 0 {
        lemma_encoded_no_white(bs.drop_last());
        lemma_encode_byte(bs.last());
        let a = percent_encoded(bs.drop_last());
        let e = encode_byte(bs.last());
        assert forall|i: int| 0 <= i < (a + e).len() implies !is_white(#[trigger] (a + e)[i]) by {
            if i < a.len() {
                assert((a + e)[i] == a[i]);
            } else {
                let c = e[i - a.len()];
                assert((a + e)[i] == c);
                assert(c == '%' || is_unreserved(c as u8) || hex_value(c as u8) >= 0);
                lemma_char_byte(c);
            }
        }
    }
}

/// The URI of an ASCII path, and that URI followed by `\r`, each name that path.
pub proof fn lemma_uri_line(p: Seq<char>)
    requires
        ascii_text(p),
    ensures
        line_path(file_uri_of(p)) == Some(p),
        line_path(file_uri_of(p).push('\r')) == Some(p),
        trim_of(file_uri_of(p)) == file_uri_of(p),
        trim_of(file_uri_of(p).push('\r')) == file_uri_of(p),
        no_white(file_uri_of(p)),
        file_uri_of(p).len() >= 7,
        file_uri_of(p)[0] == 'f',
        forall|i: int| 0 <= i < file_uri_of(p).len() ==> #[trigger] file_uri_of(p)[i] != '\n',
{
    reveal_strlit("file://");
    let e = percent_encoded(encode_utf8(p));
    let u = file_uri_of(p);
    assert(u == "file://"@ + e);
    lemma_encoded_no_white(encode_utf8(p));
    lemma_encoded_ascii(encode_utf8(p));
    assert forall|i: int| 0 <= i < u.len() implies !is_white(#[trigger] u[i]) by {
        if i >= 7 {
            assert(u[i] == e[i - 7]);
        }
    }
    assert forall|i: int| 0 <= i < u.len() implies #[trigger] u[i] != '\n' by {
        assert(!is_white(u[i]));
    }
    lemma_trim_plain(u);
    assert(u.take(7) =~= "file://"@);
    assert(u.skip(7) =~= e);
    lemma_ascii_utf8(e);
    law_percent_roundtrip(encode_utf8(p));
    lemma_ascii_utf8(p);
    lemma_ascii_bytes_chars(p);
}

proof fn lemma_split_plain(s: Seq<char>, t: Seq<char>, c: char)
    requires
        forall|i: int| 0 <= i < t.len() ==> #[trigger] t[i] != c,
    ensures
        split_on(s + t, c) == split_on(s, c).update(split_on(s, c).len() - 1, split_on(s, c).last() + t),
    decreases t.len(),
{
    lemma_split_on_len(s, c);
    if t.len() == 0 {
        assert(s + t =~= s);
        assert(split_on(s, c).last() + t =~= split_on(s, c).last());
        assert(split_on(s, c).update(split_on(s, c).len() - 1, split_on(s, c).last()) =~= split_on(s, c));
    } else {
        let t2 = t.drop_last();
        assert forall|i: int| 0 <= i < t2.len() implies #[trigger] t2[i] != c by {
            assert(t2[i] == t[i]);
        }
        lemma_split_plain(s, t2, c);
        assert((s + t).drop_last() =~= s + t2);
        assert((s + t).last() == t.last());
        assert(t.last() != c) by {
            assert(t[t.len() - 1] == t.last());
        }
        let prev = split_on(s + t2, c);
        let base = split_on(s, c);
        assert(prev.last() == base.last() + t2);
        assert((base.last() + t2).push(t.last()) =~= base.last() + t);
        assert(prev.update(prev.len() - 1, prev.last().push(t.last())) =~= base.update(
            base.len() - 1,
            base.last() + t,
        ));
    }
}

proof fn lemma_split_concat(a: Seq<char>, b: Seq<char>, c: char)
    ensures
        split_on(a.push(c) + b, c) == split_on(a, c) + split_on(b, c),
    decreases b.len(),
{
    lemma_split_on_len(a, c);
    lemma_split_on_len(b, c);
    if b.len() == 0 {
        assert(a.push(c) + b =~= a.push(c));
        assert(a.push(c).drop_last() =~= a);
        assert(split_on(b, c) =~= seq![Seq::<char>::empty()]);
        assert(split_on(a, c).push(Seq::empty()) =~= split_on(a, c) + seq![Seq::<char>::empty()]);
    } else {
        let b2 = b.drop_last();
        lemma_split_concat(a, b2, c);
        lemma_split_on_len(b2, c);
        assert((a.push(c) + b).drop_last() =~= a.push(c) + b2);
        assert((a.push(c) + b).last() == b.last());
        let left = split_on(a, c);
        let right = split_on(b2, c);
        if b.last() == c {
            assert((left + right).push(Seq::empty()) =~= left + right.push(Seq::empty()));
        } else {
            let whole = left + right;
            assert(whole.last() == right.last());
            assert(whole.update(whole.len() - 1, whole.last().push(b.last())) =~= left + right.update(
                right.len() - 1,
                right.last().push(b.last()),
            ));
        }
    }
}

/// Each of `items` followed by `\r`, but the last.
pub open spec fn crlf_lines(items: Seq<Seq<char>>) -> Seq<Seq<char>>
    decreases items.len(),
{
    if items.len() <= 1 {
        items
    } else {
        let prev = crlf_lines(items.drop_last());
        prev.update(prev.len() - 1, prev.last().push('\r')).push(items.last())
    }
}

proof fn lemma_crlf_len(items: Seq<Seq<char>>)
    ensures
        crlf_lines(items).len() == items.len(),
        items.len() > 0 ==> crlf_lines(items).last() == items.last(),
        forall|i: int| 0 <= i < items.len() - 1 ==> #[trigger] crlf_lines(items)[i] == items[i].push('\r'),
    decreases items.len(),
{
    if items.len() > 1 {
        let d = items.drop_last();
        lemma_crlf_len(d);
        let prev = crlf_lines(d);
        assert forall|i: int| 0 <= i < items.len() - 1 implies #[trigger] crlf_lines(items)[i] == items[i].push('\r') by {
            if i < d.len() - 1 {
                assert(crlf_lines(items)[i] == prev[i]);
                assert(d[i] == items[i]);
            } else {
                assert(crlf_lines(items)[i] == prev.last().push('\r'));
                assert(prev.last() == d.last());
            }
        }
    }
}

/// Items with no newline, joined by CRLF, split at each newline.
proof fn lemma_split_joined(items: Seq<Seq<char>>)
    requires
        items.len() > 0,
        forall|k: int, i: int| 0 <= k < items.len() && 0 <= i < items[k].len() ==> #[trigger] items[k][i] != '\n',
    ensures
        split_on(join_with(items, "\r\n"@), '\n') == crlf_lines(items),
    decreases items.len(),
{
    reveal_strlit("\r\n");
    if items.len() == 1 {
        assert(Seq::<char>::empty() + items[0] =~= items[0]);
        lemma_split_plain(Seq::empty(), items[0], '\n');
        assert(split_on(Seq::<char>::empty(), '\n') =~= seq![Seq::<char>::empty()]);
        assert(seq![Seq::<char>::empty()].update(0, Seq::<char>::empty() + items[0]) =~= items);
    } else {
        let d = items.drop_last();
        let last = items.last();
        assert forall|k: int, i: int| 0 <= k < d.len() && 0 <= i < d[k].len() implies #[trigger] d[k][i] != '\n' by {
            assert(d[k] == items[k]);
        }
        lemma_split_joined(d);
        let jd = join_with(d, "\r\n"@);
        assert(join_with(items, "\r\n"@) =~= jd.push('\r').push('\n') + last);
        assert forall|i: int| 0 <= i < last.len() implies #[trigger] last[i] != '\n' by {
            assert(items[items.len() - 1] == last);
        }
        lemma_split_concat(jd.push('\r'), last, '\n');
        lemma_split_plain(jd, seq!['\r'], '\n');
        assert(jd + seq!['\r'] =~= jd.push('\r'));
        lemma_split_plain(Seq::empty(), last, '\n');
        assert(Seq::<char>::empty() + last =~= last);
        assert(split_on(last, '\n') =~= seq![last]) by {
            assert(split_on(Seq::<char>::empty(), '\n') =~= seq![Seq::<char>::empty()]);
            assert(seq![Seq::<char>::empty()].update(0, Seq::<char>::empty() + last) =~= seq![last]);
        }
        let prev = crlf_lines(d);
        lemma_crlf_len(d);
        assert(prev.last() + seq!['\r'] =~= prev.last().push('\r'));
        assert(prev.update(prev.len() - 1, prev.last().push('\r')) + seq![last] =~= prev.update(
            prev.len() - 1,
            prev.last().push('\r'),
        ).push(last));
    }
}

proof fn lemma_all_entries(lines: Seq<Seq<char>>)
    requires
        forall|i: int| 0 <= i < lines.len() ==> is_uri_entry(#[trigger] lines[i]),
    ensures
        uri_entries(lines) == lines,
    decreases lines.len(),
{
    if lines.len() > 0 {
        let d = lines.drop_last();
        assert forall|i: int| 0 <= i < d.len() implies is_uri_entry(#[trigger] d[i]) by {
            assert(d[i] == lines[i]);
        }
        lemma_all_entries(d);
        assert(is_uri_entry(lines[lines.len() - 1]));
        assert(d.push(lines.last()) =~= lines);
    }
}

proof fn lemma_all_paths(lines: Seq<Seq<char>>, ps: Seq<Seq<char>>)
    requires
        lines.len() == ps.len(),
        forall|i: int| 0 <= i < lines.len() ==> line_path(#[trigger] lines[i]) == Some(ps[i]),
    ensures
        line_paths(lines) == ps,
    decreases lines.len(),
{
    if lines.len() > 0 {
        let d = lines.drop_last();
        assert forall|i: int| 0 <= i < d.len() implies line_path(#[trigger] d[i]) == Some(ps.drop_last()[i]) by {
            assert(d[i] == lines[i]);
        }
        lemma_all_paths(d, ps.drop_last());
        assert(line_path(lines[lines.len() - 1]) == Some(ps[ps.len() - 1]));
        assert(ps.drop_last().push(ps.last()) =~= ps);
    }
}

/// Every path of `ps` is ASCII.
pub open spec fn all_ascii(ps: Seq<Seq<char>>) -> bool {
    forall|i: int| 0 <= i < ps.len() ==> ascii_text(#[trigger] ps[i])
}

proof fn lemma_uris(paths: Seq<Seq<char>>)
    requires
        all_ascii(paths),
    ensures
        forall|k: int, i: int| 0 <= k < paths.len() && 0 <= i < file_uris_of(paths)[k].len() ==> #[trigger] file_uris_of(
            paths,
        )[k][i] != '\n',
        file_uris_of(paths).len() == paths.len(),
        forall|k: int| 0 <= k < paths.len() ==> line_path(#[trigger] file_uris_of(paths)[k]) == Some(paths[k])
            && line_path(file_uris_of(paths)[k].push('\r')) == Some(paths[k]) && is_uri_entry(
            file_uris_of(paths)[k],
        ) && is_uri_entry(file_uris_of(paths)[k].push('\r')) && file_uris_of(paths)[k].len() > 0,
{
    let us = file_uris_of(paths);
    assert forall|k: int, i: int| 0 <= k < paths.len() && 0 <= i < us[k].len() implies #[trigger] us[k][i] != '\n' by {
        lemma_uri_line(paths[k]);
    }
    assert forall|k: int| 0 <= k < paths.len() implies line_path(#[trigger] us[k]) == Some(paths[k]) && line_path(
        us[k].push('\r'),
    ) == Some(paths[k]) && is_uri_entry(us[k]) && is_uri_entry(us[k].push('\r')) && us[k].len() > 0 by {
        lemma_uri_line(paths[k]);
    }
}

/// The paths put in a `text/uri-list` are the paths read back from it, when they are ASCII.
pub proof fn law_uri_list_roundtrip(paths: Seq<Seq<char>>)
    requires
        all_ascii(paths),
    ensures
        uri_list_paths(uri_list_text(paths)) == paths,
{
    let us = file_uris_of(paths);
    if paths.len() == 0 {
        assert(us.len() == 0);
        assert(split_on(Seq::<char>::empty(), '\n') =~= seq![Seq::<char>::empty()]);
        assert(text_lines(Seq::<char>::empty()) =~= Seq::<Seq<char>>::empty());
        assert(uri_list_paths(uri_list_text(paths)) =~= Seq::<Seq<char>>::empty());
    } else {
        lemma_uris(paths);
        lemma_split_joined(us);
        lemma_crlf_len(us);
        let lines = crlf_lines(us);
        assert(lines.last() == us.last());
        assert(us[us.len() - 1] == us.last());
        assert(text_lines(uri_list_text(paths)) == lines);
        assert forall|i: int| 0 <= i < lines.len() implies is_uri_entry(#[trigger] lines[i]) && line_path(lines[i])
            == Some(paths[i]) by {
            if i < lines.len() - 1 {
                assert(lines[i] == us[i].push('\r'));
            } else {
                assert(lines[i] == us[i]);
            }
        }
        lemma_all_entries(lines);
        lemma_all_paths(lines, paths);
    }
}

/// The operation and paths put in the GNOME format are what is read back from it, when the
/// paths are ASCII and there is at least one.
pub proof fn law_gnome_roundtrip(paths: Seq<Seq<char>>, op: ClipboardOp)
    requires
        all_ascii(paths),
        paths.len() > 0,
    ensures
        gnome_contents(gnome_text(paths, op)) == Some((op, paths)),
{
    reveal_strlit("\r\n");
    reveal_strlit("copy");
    reveal_strlit("cut");
    let us = file_uris_of(paths);
    let j = uri_list_text(paths);
    let a = action_word(op);
    lemma_uris(paths);
    lemma_split_joined(us);
    lemma_crlf_len(us);
    let g = gnome_text(paths, op);
    assert(g =~= a.push('\r').push('\n') + j.push('\r').push('\n'));
    lemma_split_concat(a.push('\r'), j.push('\r').push('\n'), '\n');
    assert(j.push('\r').push('\n').drop_last() =~= j.push('\r'));
    lemma_split_plain(j, seq!['\r'], '\n');
    assert(j + seq!['\r'] =~= j.push('\r'));
    lemma_split_plain(Seq::empty(), a.push('\r'), '\n');
    assert(Seq::<char>::empty() + a.push('\r') =~= a.push('\r'));
    assert(split_on(Seq::<char>::empty(), '\n') =~= seq![Seq::<char>::empty()]);
    assert(split_on(a.push('\r'), '\n') =~= seq![a.push('\r')]) by {
        assert(seq![Seq::<char>::empty()].update(0, Seq::<char>::empty() + a.push('\r')) =~= seq![a.push('\r')]);
    }
    let cl = crlf_lines(us);
    let cr = cl.update(cl.len() - 1, cl.last().push('\r'));
    assert(cl.last() + seq!['\r'] =~= cl.last().push('\r'));
    let segs = seq![a.push('\r')] + cr.push(Seq::<char>::empty());
    assert(split_on(g, '\n') == segs);
    let lines = text_lines(g);
    assert(lines =~= seq![a.push('\r')] + cr);
    lemma_trim_plain(a);
    assert(lines[0] == a.push('\r'));
    assert((trim_of(lines[0]) == "cut"@) == (op == ClipboardOp::Move)) by {
        if op == ClipboardOp::Copy {
            assert(a.len() != ("cut"@).len());
        }
    }
    assert(lines.skip(1) =~= cr);
    assert forall|i: int| 0 <= i < cr.len() implies line_path(#[trigger] cr[i]) == Some(paths[i]) by {
        if i < cr.len() - 1 {
            assert(cr[i] == us[i].push('\r'));
        } else {
            assert(cr[i] == cl.last().push('\r'));
            assert(cl.last() == us.last());
            assert(us[us.len() - 1] == us.last());
        }
    }
    lemma_all_paths(cr, paths);
}

/// What is put on the clipboard for some paths is read back from it: the GNOME format gives
/// the paths and the operation, whatever the other formats hold.
pub proof fn law_clipboard_roundtrip(
    paths: Seq<Seq<char>>,
    op: ClipboardOp,
    uri_list: Result<Seq<u8>, Seq<char>>,
    kde_cut: Option<Seq<u8>>,
)
    requires
        all_ascii(paths),
        paths.len() > 0,
    ensures
        clipboard_outcome(Some(encode_utf8(gnome_text(paths, op))), uri_list, kde_cut) == Ok::<(Seq<Seq<char>>, ClipboardOp), Seq<char>>((paths, op)),
{
    let g = gnome_text(paths, op);
    vstd::utf8::encode_utf8_valid_utf8(g);
    vstd::utf8::encode_utf8_decode_utf8(g);
    law_gnome_roundtrip(paths, op);
}

/// The KDE cut marker put on the clipboard for `op`.
pub open spec fn kde_marker(op: ClipboardOp) -> Option<Seq<u8>> {
    match op {
        ClipboardOp::Move => Some(seq![49u8]),
        ClipboardOp::Copy => None,
    }
}

/// Without the GNOME format, the URI list and the KDE cut marker put on the clipboard read
/// back as the same paths and operation.
pub proof fn law_uri_list_clipboard_roundtrip(paths: Seq<Seq<char>>, op: ClipboardOp)
    requires
        all_ascii(paths),
        paths.len() > 0,
    ensures
        clipboard_outcome(None, Ok(encode_utf8(uri_list_text(paths))), kde_marker(op)) == Ok::<
            (Seq<Seq<char>>, ClipboardOp),
            Seq<char>,
        >((paths, op)),
{
    let j = uri_list_text(paths);
    vstd::utf8::encode_utf8_valid_utf8(j);
    vstd::utf8::encode_utf8_decode_utf8(j);
    law_uri_list_roundtrip(paths);
}

} // verus!
