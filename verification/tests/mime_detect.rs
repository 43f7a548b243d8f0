use static_http_file::{
    detect_mime_type, detect_mime_type_ext, detect_mime_type_magic, file_ext, lookup_magic,
    ConstHttpFile, Magic, MagicOffset, MagicTable,
};

#[test]
fn test_detect_mime_type_ext() {
    assert_eq!(detect_mime_type_ext("foo.txt"), Some("text/plain"));
    assert_eq!(detect_mime_type_ext("foo.html"), Some("text/html"));
    assert_eq!(detect_mime_type_ext("foo.css"), Some("text/css"));
    assert_eq!(
        detect_mime_type_ext("foo.js"),
        Some("application/javascript")
    );
    assert_eq!(detect_mime_type_ext("foo.json"), Some("application/json"));
    assert_eq!(detect_mime_type_ext("foo.svg"), Some("image/svg+xml"));
    assert_eq!(detect_mime_type_ext("foo.png"), Some("image/png"));

    assert_eq!(detect_mime_type_ext("foo"), None);
    assert_eq!(detect_mime_type_ext("foo."), None);
    assert_eq!(detect_mime_type_ext("foo.js/test"), None);
    assert_eq!(detect_mime_type_ext("foo/js"), None);
}

#[test]
fn test_detect_mime_type_magic() {
    assert_eq!(detect_mime_type_magic(b"<html></html>"), Some("text/html"));
    assert_eq!(
        detect_mime_type_magic(b"<!DOCTYPE html><title>test"),
        Some("text/html")
    );

    assert_eq!(
        detect_mime_type_magic(b"<?xml version=\"1.0\" encoding=\"utf-8\">\n<!DOCTYPE html>"),
        Some("application/xhtml+xml")
    );
    assert_eq!(detect_mime_type_magic(b"<?xml version=\"1.0\" encoding=\"utf-8\">\n<html xmlns=\"http://www.w3.org/1999/html\"></html>"), Some("application/xhtml+xml"));
    assert_eq!(detect_mime_type_magic(b"<?xml version=\"1.0\" encoding=\"utf-8\">\n<div xmlns=\"http://www.w3.org/1999/html\"></div>"), Some("application/xhtml+xml"));

    assert_eq!(
        detect_mime_type_magic(b"<?xml version=\"1.0\" encoding=\"utf-8\">\n<svg></svg>"),
        Some("image/svg+xml")
    );
    assert_eq!(detect_mime_type_magic(b"<?xml version=\"1.0\" encoding=\"utf-8\">\n<svg xmlns=\"http://www.w3.org/2000/svg\"></svg>"), Some("image/svg+xml"));
    assert_eq!(detect_mime_type_magic(b"<?xml version=\"1.0\" encoding=\"utf-8\">\n<g xmlns=\"http://www.w3.org/2000/svg\"></g>"), Some("image/svg+xml"));

    assert_eq!(
        detect_mime_type_magic(b"<?xml version=\"1.0\" encoding=\"utf-8\">\n<g></g>"),
        Some("text/xml")
    );
}

#[test]
fn test_const_http_file() {
    let data: &'static [u8] = b"/target\n/Cargo.lock\n";
    let mime = detect_mime_type("../.gitignore", data).unwrap_or("application/octet-data");
    let etag: &'static str =
        Box::leak(static_http_file::compute_etag_nonconst(data).into_boxed_str());
    let file = ConstHttpFile::new_named(data, mime, etag, "../.gitignore");
    assert_eq!(file.mime, "application/octet-data");
    assert_eq!(file.etag.len(), 12);
    assert_eq!(file.data.len(), 20);
}

#[test]
fn file_ext_is_taken_from_the_last_segment() {
    assert_eq!(file_ext("foo.txt"), Some("txt"));
    assert_eq!(file_ext("a.b.c"), Some("c"));
    assert_eq!(file_ext("foo."), Some(""));
    assert_eq!(file_ext("foo"), None);
    assert_eq!(file_ext(""), None);
    assert_eq!(file_ext("a.js/b"), None);
    assert_eq!(file_ext("a.js\\b"), None);
    assert_eq!(file_ext("dir/.hidden"), Some("hidden"));
    assert_eq!(file_ext("d\u{e9}.\u{e9}t\u{e9}"), Some("\u{e9}t\u{e9}"));
}

#[test]
fn extension_lookup_is_case_sensitive_and_exact() {
    assert_eq!(detect_mime_type_ext("a.js/b"), None);
    assert_eq!(detect_mime_type_ext("foo.TXT"), None);
    assert_eq!(detect_mime_type_ext("foo.txt2"), None);
    assert_eq!(detect_mime_type_ext("foo.htm"), Some("text/html"));
    assert_eq!(detect_mime_type_ext("foo.mjs"), Some("application/javascript"));
    assert_eq!(detect_mime_type_ext("x/y.tar.gz"), Some("application/gzip"));
    assert_eq!(detect_mime_type_ext("foo.woff2"), Some("font/woff2"));
    assert_eq!(detect_mime_type_ext("foo.ogx"), Some("application/ogg"));
    assert_eq!(detect_mime_type_ext("foo.m3u8"), Some("application/x-mpegURL"));
    assert_eq!(
        detect_mime_type_ext("foo.pptx"),
        Some("application/vnd.openxmlformats-officedocument.presentationml.presentation")
    );
}

#[test]
fn magic_bytes_of_binary_formats() {
    assert_eq!(detect_mime_type_magic(b"GIF89a\x01\x00"), Some("image/gif"));
    assert_eq!(detect_mime_type_magic(b"\xff\xd8\xff\xe0"), Some("image/jpeg"));
    assert_eq!(detect_mime_type_magic(b"%PDF-1.7"), Some("application/pdf"));
    assert_eq!(detect_mime_type_magic(b"\x1f\x8b\x08\x00"), Some("application/x-gzip"));
    assert_eq!(detect_mime_type_magic(b"\x00asm\x01"), Some("text/x-asm"));
    assert_eq!(detect_mime_type_magic(b"wOF2...."), Some("font/woff2"));
    assert_eq!(detect_mime_type_magic(b"#!/bin/sh\necho"), Some("application/x-sh"));
}

#[test]
fn magic_bytes_of_containers() {
    assert_eq!(detect_mime_type_magic(b"RIFF\x24\x00\x00\x00WEBPVP8 "), Some("image/webp"));
    assert_eq!(detect_mime_type_magic(b"RIFF\x24\x00\x00\x00WAVEfmt "), Some("audio/wav"));
    assert_eq!(detect_mime_type_magic(b"RIFF\x24\x00\x00\x00AVI LIST"), Some("video/x-msvideo"));
    assert_eq!(detect_mime_type_magic(b"RIFF\x24\x00\x00\x00CDDAfmt "), Some("audio/aiff"));
    assert_eq!(detect_mime_type_magic(b"RIFF\x24\x00\x00\x00????"), None);
    assert_eq!(detect_mime_type_magic(b"RIFFWEBP"), None);
    assert_eq!(detect_mime_type_magic(b"RIFF\x24\x00\x00\x00WEB"), None);
    assert_eq!(detect_mime_type_magic(b"RIFF"), None);
    assert_eq!(detect_mime_type_magic(b"\x00\x00\x00\x1cftyp"), None);
    assert_eq!(detect_mime_type_magic(b"\x00\x00\x00\x1cmoov"), Some("video/quicktime"));
}

#[test]
fn ftyp_box_is_told_apart_by_its_brand() {
    assert_eq!(detect_mime_type_magic(b"\x00\x00\x00\x1cftypavif"), Some("image/avif"));
    assert_eq!(detect_mime_type_magic(b"\x00\x00\x00\x18ftypheic\x00\x00"), Some("image/heic"));
    assert_eq!(detect_mime_type_magic(b"\x00\x00\x00\x20ftypisom\x00\x00\x02\x00"), Some("video/mp4"));
    assert_eq!(detect_mime_type_magic(b"\x00\x00\x00\x20ftypmp41"), Some("video/mp4"));
    assert_eq!(detect_mime_type_magic(b"\x00\x00\x00\x20ftypmp42"), Some("video/mp4"));
    assert_eq!(detect_mime_type_magic(b"\x00\x00\x00\x20ftypmmp4"), Some("video/mp4"));
    assert_eq!(detect_mime_type_magic(b"\x00\x00\x00\x20ftypM4A "), Some("audio/mp4"));
    assert_eq!(detect_mime_type_magic(b"\x00\x00\x00\x20ftypqt  "), None);
    assert_eq!(detect_mime_type_magic(b"\x00\x00\x00\x1cftypavi"), None);
    assert_eq!(detect_mime_type_magic(b"avifftyp"), None);
}

#[test]
fn magic_bytes_at_a_far_offset() {
    let mut tar = vec![0u8; 512];
    tar[0] = b'f';
    tar[257..262].copy_from_slice(b"ustar");
    assert_eq!(detect_mime_type_magic(&tar), Some("application/x-tar"));
    assert_eq!(detect_mime_type_magic(&tar[..261]), None);
}

#[test]
fn magic_short_or_empty_input_matches_nothing() {
    assert_eq!(detect_mime_type_magic(b""), None);
    assert_eq!(detect_mime_type_magic(b"<"), None);
    assert_eq!(detect_mime_type_magic(b"<htm"), None);
    assert_eq!(detect_mime_type_magic(b"GIF8"), None);
    assert_eq!(detect_mime_type_magic(b"plain text"), None);
}

#[test]
fn xml_prolog_is_told_apart_by_what_follows() {
    assert_eq!(detect_mime_type_magic(b"<?xml ?>"), Some("text/xml"));
    assert_eq!(detect_mime_type_magic(b"<?xml ?><svg"), Some("image/svg+xml"));
    let mut far = b"<?xml ?>".to_vec();
    far.extend(std::iter::repeat(b' ').take(60));
    far.extend_from_slice(b"<svg>");
    assert_eq!(detect_mime_type_magic(&far), Some("text/xml"));
}

#[test]
fn extension_is_trusted_over_content() {
    assert_eq!(detect_mime_type("foo.txt", b"<html></html>"), Some("text/plain"));
    assert_eq!(detect_mime_type("foo", b"<html></html>"), Some("text/html"));
    assert_eq!(detect_mime_type("foo.unknown", b"GIF87a"), Some("image/gif"));
    assert_eq!(detect_mime_type("foo", b"nothing"), None);
}

#[test]
fn a_table_of_ones_own() {
    let nested = MagicTable::new().with_mime(MagicOffset::At(2), b"x".to_vec(), "a/x");
    let table = MagicTable::new()
        .with(MagicOffset::Before(3), b"zz".to_vec(), Magic::Mime("a/zz"))
        .with_nested(MagicOffset::At(0), b"ab".to_vec(), Some("a/ab"), nested)
        .with_mime(MagicOffset::At(0), b"a".to_vec(), "a/a");
    assert_eq!(table.len(), 3);
    assert_eq!(lookup_magic(&table, b"abx"), Some("a/x"));
    assert_eq!(lookup_magic(&table, b"aby"), Some("a/ab"));
    assert_eq!(lookup_magic(&table, b"ac"), Some("a/a"));
    assert_eq!(lookup_magic(&table, b"abzz"), Some("a/zz"));
    assert_eq!(lookup_magic(&table, b"abczz"), Some("a/ab"));
    assert_eq!(lookup_magic(&table, b"b"), None);
}
