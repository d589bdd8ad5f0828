use dagger_explorer::clipboard::{
    build_payload, clipboard_from_formats, clipboard_payload, file_uri, parse_gnome, parse_kde_cut, parse_uri_line,
    parse_uri_list, percent_decode, percent_encode, ClipboardOp,
};

#[test]
fn build_payload_from_tmp() {
    let paths = vec!["/tmp".to_string()];
    let payload = build_payload(&paths, ClipboardOp::Copy).expect("payload");
    assert!(payload.uri_list.starts_with(b"file://"));
    assert!(payload.gnome.starts_with(b"copy"));
}

#[test]
fn payload_formats_for_a_move() {
    let paths = vec!["/home/u/a b.txt".to_string(), "/tmp/x".to_string()];
    let payload = build_payload(&paths, ClipboardOp::Move).expect("payload");
    assert_eq!(payload.uri_list, b"file:///home/u/a%20b.txt\r\nfile:///tmp/x".to_vec());
    assert_eq!(payload.gnome, b"cut\r\nfile:///home/u/a%20b.txt\r\nfile:///tmp/x\r\n".to_vec());
    assert_eq!(payload.kde_cut, Some(vec![b'1']));
}

#[test]
fn payload_for_a_copy_has_no_cut_marker() {
    let payload = build_payload(&vec!["/a".to_string()], ClipboardOp::Copy).expect("payload");
    assert_eq!(payload.kde_cut, None);
    assert_eq!(payload.gnome, b"copy\r\nfile:///a\r\n".to_vec());
}

#[test]
fn empty_payload_is_refused() {
    match clipboard_payload(&Vec::new(), ClipboardOp::Copy) {
        Err(message) => assert_eq!(message, "No paths to place on clipboard"),
        Ok(_) => panic!("an empty list must be refused"),
    }
    assert!(clipboard_payload(&vec!["/a".to_string()], ClipboardOp::Copy).is_ok());
}

#[test]
fn percent_encoding_keeps_unreserved_bytes() {
    assert_eq!(percent_encode(b"/a-b_c.d~e"), "/a-b_c.d~e");
    assert_eq!(percent_encode(b"a b%"), "a%20b%25");
    assert_eq!(percent_encode("é".as_bytes()), "%C3%A9");
    assert_eq!(file_uri("/x y"), "file:///x%20y");
}

#[test]
fn percent_decoding() {
    assert_eq!(percent_decode("a%20b"), "a b");
    assert_eq!(percent_decode("%41%4a%4A"), "AJJ");
    assert_eq!(percent_decode("100%"), "100%");
    assert_eq!(percent_decode("%zz"), "%zz");
    assert_eq!(percent_decode("%2"), "%2");
    assert_eq!(percent_decode("%+A"), "\u{a}");
    // Each decoded byte becomes the character with that code.
    assert_eq!(percent_decode("%C3%A9"), "\u{c3}\u{a9}");
}

#[test]
fn percent_roundtrip_on_ascii() {
    let text = "/home/u/My Files/100% done #1.txt";
    assert_eq!(percent_decode(&percent_encode(text.as_bytes())), text);
}

#[test]
fn uri_lines() {
    assert_eq!(parse_uri_line("  file:///a%20b  "), Some("/a b".to_string()));
    assert_eq!(parse_uri_line("/plain/path"), Some("/plain/path".to_string()));
    assert_eq!(parse_uri_line("   "), None);
}

#[test]
fn uri_list_skips_blank_and_comment_lines() {
    let data = "# comment\r\nfile:///a\r\n\r\n  file:///b%20c \n/d";
    assert_eq!(parse_uri_list(data), vec!["/a".to_string(), "/b c".to_string(), "/d".to_string()]);
    assert_eq!(parse_uri_list(""), Vec::<String>::new());
}

#[test]
fn gnome_text_parsing() {
    assert_eq!(
        parse_gnome("cut\r\nfile:///a\r\nfile:///b\r\n"),
        Some((ClipboardOp::Move, vec!["/a".to_string(), "/b".to_string()]))
    );
    assert_eq!(parse_gnome("copy\nfile:///a"), Some((ClipboardOp::Copy, vec!["/a".to_string()])));
    assert_eq!(parse_gnome("anything\n/a"), Some((ClipboardOp::Copy, vec!["/a".to_string()])));
    assert_eq!(parse_gnome("cut\n"), None);
    assert_eq!(parse_gnome(""), None);
}

#[test]
fn kde_cut_marker() {
    assert_eq!(parse_kde_cut(b"1"), ClipboardOp::Move);
    assert_eq!(parse_kde_cut(b"0"), ClipboardOp::Copy);
    assert_eq!(parse_kde_cut(b""), ClipboardOp::Copy);
}

#[test]
fn clipboard_reads_back_what_was_written() {
    let paths = vec!["/home/u/a b.txt".to_string(), "/tmp/x".to_string()];
    for op in [ClipboardOp::Copy, ClipboardOp::Move] {
        let payload = build_payload(&paths, op).expect("payload");
        let read = clipboard_from_formats(Some(payload.gnome.clone()), Ok(payload.uri_list.clone()), payload.kde_cut.clone());
        assert_eq!(read, Ok((paths.clone(), op)));
        let without_gnome = clipboard_from_formats(None, Ok(payload.uri_list.clone()), payload.kde_cut.clone());
        assert_eq!(without_gnome, Ok((paths.clone(), op)));
    }
}

#[test]
fn clipboard_errors() {
    assert_eq!(
        clipboard_from_formats(None, Err("no uri list".to_string()), None),
        Err("no uri list".to_string())
    );
    assert_eq!(
        clipboard_from_formats(None, Ok(b"# only a comment".to_vec()), None),
        Err("Clipboard does not contain file paths".to_string())
    );
    match clipboard_from_formats(None, Ok(vec![0xff, 0xfe]), None) {
        Err(message) => assert!(message.starts_with("Invalid UTF-8 in text/uri-list: ")),
        Ok(_) => panic!("invalid UTF-8 must be refused"),
    }
    // A GNOME text without paths falls back to the URI list.
    assert_eq!(
        clipboard_from_formats(Some(b"cut\n".to_vec()), Ok(b"file:///a".to_vec()), Some(b"1".to_vec())),
        Ok((vec!["/a".to_string()], ClipboardOp::Move))
    );
}
