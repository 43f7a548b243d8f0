use static_http_file::{cachebust_suffix, cachebust_uri};

fn query(path: &[u8], q: Option<&[u8]>, key: &[u8], etag: &[u8]) -> Option<Vec<u8>> {
    cachebust_uri(path, q, key, etag)
}

#[test]
fn query_busting_adds_the_fingerprint() {
    assert_eq!(query(b"/f.js", None, b"v", b"abc"), Some(b"/f.js?v=abc".to_vec()));
    assert_eq!(query(b"/f.js", Some(b""), b"v", b"abc"), Some(b"/f.js?v=abc".to_vec()));
}

#[test]
fn query_busting_keeps_a_url_that_names_the_fingerprint() {
    assert_eq!(query(b"/f.js", Some(b"v=abc"), b"v", b"abc"), None);
    assert_eq!(query(b"/f.js", Some(b"x=1&v=abc"), b"v", b"abc"), None);
    assert_eq!(query(b"/f.js", Some(b"v&v=abc&v=old"), b"v", b"abc"), None);
}

#[test]
fn query_busting_replaces_a_stale_fingerprint() {
    assert_eq!(
        query(b"/f.js", Some(b"v=old&x=1"), b"v", b"abc"),
        Some(b"/f.js?v=abc&x=1".to_vec())
    );
    assert_eq!(
        query(b"/f.js", Some(b"x=1&v=old&y=2&v=older&v"), b"v", b"abc"),
        Some(b"/f.js?v=abc&x=1&y=2".to_vec())
    );
    assert_eq!(
        query(b"/f.js", Some(b"v=old&vv=1&v2"), b"v", b"abc"),
        Some(b"/f.js?v=abc&vv=1&v2".to_vec())
    );
}

#[test]
fn query_busting_keeps_the_other_parameters() {
    assert_eq!(
        query(b"/f.js", Some(b"x=1&y"), b"v", b"abc"),
        Some(b"/f.js?v=abc&x=1&y".to_vec())
    );
    assert_eq!(
        query(b"/f.js", Some(b"v&x=1"), b"v", b"abc"),
        Some(b"/f.js?v=abc&x=1".to_vec())
    );
    assert_eq!(
        query(b"/f.js", Some(b"v=abcd"), b"v", b"abc"),
        Some(b"/f.js?v=abc".to_vec())
    );
}

#[test]
fn query_busting_names_the_key_once() {
    assert_eq!(query(b"/f.js", Some(b"v"), b"v", b"abc"), Some(b"/f.js?v=abc".to_vec()));
    assert_eq!(query(b"/f.js", Some(b"v&v&v"), b"v", b"abc"), Some(b"/f.js?v=abc".to_vec()));
    assert_eq!(
        query(b"/f.js", Some(b"a&v&b=2&v"), b"v", b"abc"),
        Some(b"/f.js?v=abc&a&b=2".to_vec())
    );
    assert_eq!(
        query(b"/f.js", Some(b"vv&v2=1&xv"), b"v", b"abc"),
        Some(b"/f.js?v=abc&vv&v2=1&xv".to_vec())
    );
}

#[test]
fn suffix_busting_with_a_separator() {
    let sep = Some(b'.');
    assert_eq!(cachebust_suffix(b"/f.js", b"abc", sep), Some(b"/f.abc.js".to_vec()));
    assert_eq!(cachebust_suffix(b"/f.abc.js", b"abc", sep), None);
    assert_eq!(cachebust_suffix(b"/f.old.js", b"abc", sep), Some(b"/f.abc.js".to_vec()));
}

#[test]
fn suffix_busting_with_another_separator() {
    let sep = Some(b'-');
    assert_eq!(cachebust_suffix(b"/a/f.js", b"abc", sep), Some(b"/a/f-abc.js".to_vec()));
    assert_eq!(cachebust_suffix(b"/a/f-abc.js", b"abc", sep), None);
    assert_eq!(cachebust_suffix(b"/a/f-old.js", b"abc", sep), Some(b"/a/f-abc.js".to_vec()));
    assert_eq!(cachebust_suffix(b"/a-b/f.js", b"abc", sep), Some(b"/a-b/f-abc.js".to_vec()));
    assert_eq!(cachebust_suffix(b"/a/f", b"abc", sep), Some(b"/a/f-abc".to_vec()));
    assert_eq!(cachebust_suffix(b"/a/f-abc", b"abc", sep), None);
    assert_eq!(cachebust_suffix(b"/a/f-old", b"abc", sep), Some(b"/a/f-abc".to_vec()));
}

#[test]
fn suffix_busting_without_a_separator() {
    assert_eq!(cachebust_suffix(b"/f.js", b"abc", None), Some(b"/fabc.js".to_vec()));
    assert_eq!(cachebust_suffix(b"/fabc.js", b"abc", None), None);
    assert_eq!(cachebust_suffix(b"/fabc", b"abc", None), None);
    assert_eq!(cachebust_suffix(b"/fold.js", b"abc", None), Some(b"/foldabc.js".to_vec()));
    assert_eq!(cachebust_suffix(b"abc", b"abc", None), Some(b"abcabc".to_vec()));
}

#[test]
fn suffix_busting_cuts_at_the_last_separator_of_the_name() {
    let sep = Some(b'-');
    assert_eq!(
        cachebust_suffix(b"/my-file.js", b"abc", sep),
        Some(b"/my-abc.js".to_vec())
    );
    assert_eq!(
        cachebust_suffix(b"/my-file-old.js", b"abc", sep),
        Some(b"/my-file-abc.js".to_vec())
    );
}

#[test]
fn suffix_busting_of_an_empty_base_name() {
    assert_eq!(cachebust_suffix(b"/-old.js", b"abc", Some(b'-')), Some(b"/-abc.js".to_vec()));
    assert_eq!(cachebust_suffix(b"/.js", b"abc", Some(b'-')), Some(b"/-abc.js".to_vec()));
    assert_eq!(cachebust_suffix(b"-old", b"abc", Some(b'-')), Some(b"-old-abc".to_vec()));
    assert_eq!(cachebust_suffix(b"", b"abc", Some(b'-')), Some(b"-abc".to_vec()));
}

#[test]
fn a_query_redirect_is_not_redirected_again() {
    let cases: [Option<&[u8]>; 7] = [
        None,
        Some(b""),
        Some(b"x=1"),
        Some(b"v=old"),
        Some(b"v=old&x=1&v&v=2"),
        Some(b"&&v=old&&"),
        Some(b"v"),
    ];
    for q in cases {
        let url = query(b"/f.js", q, b"v", b"abc").unwrap();
        let at = url.iter().position(|b| *b == b'?').unwrap();
        assert_eq!(&url[..at], b"/f.js");
        assert!(url[at + 1..].starts_with(b"v=abc"));
        assert_eq!(query(b"/f.js", Some(&url[at + 1..]), b"v", b"abc"), None);
    }
}

#[test]
fn a_suffix_redirect_is_not_redirected_again() {
    let paths: [&[u8]; 8] =
        [b"/f.js", b"/f.old.js", b"/a.b/f", b"/f", b"f.tar.gz", b"/.js", b"/a-b.c-d.e", b"x"];
    for sep in [Some(b'.'), Some(b'-'), None] {
        for path in paths {
            if sep.is_none() && path == b"/.js" {
                continue;
            }
            if let Some(new_path) = cachebust_suffix(path, b"abc", sep) {
                assert_eq!(cachebust_suffix(&new_path, b"abc", sep), None);
            }
        }
    }
}
