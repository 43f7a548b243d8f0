use static_http_file::{
    not_hidden, respond_guard, response_headers, CacheBusting, ConstHttpFile, DirWarmup,
    HeaderName, HttpFile, HttpFileResponse, Method, QueryCacheBustedHttpFile, Request, Response,
    SharedHttpFile, StdHttpFile, TokioHttpFile,
};

const ETAG: &[u8] = b"\"q25fZAd-fY\"";
const MIME: &[u8] = b"text/plain";
const IMMUTABLE: &[u8] = b"public, max-age=31536000, immutable";
const REVALIDATE: &[u8] = b"public, max-age=0, must-revalidate";
const ALLOW: &[u8] = b"GET, HEAD, OPTIONS";

fn request(method: Method, path: &[u8], query: Option<&[u8]>, inm: Option<&[u8]>) -> Request {
    Request {
        method,
        path: path.to_vec(),
        query: query.map(|q| q.to_vec()),
        if_none_match: inm.map(|v| v.to_vec()),
    }
}

fn base(cache_control: &[u8]) -> Vec<(HeaderName, Vec<u8>)> {
    vec![
        (HeaderName::ContentType, MIME.to_vec()),
        (HeaderName::ETag, ETAG.to_vec()),
        (HeaderName::CacheControl, cache_control.to_vec()),
    ]
}

fn plain(req: &Request) -> Response {
    respond_guard(req, MIME, ETAG, &CacheBusting::Disabled)
}

#[test]
fn get_sends_the_content() {
    let res = plain(&request(Method::Get, b"/f.txt", None, None));
    assert_eq!(res, Response { status: 200, headers: base(REVALIDATE), body: true });
}

#[test]
fn head_sends_the_headers_only() {
    let res = plain(&request(Method::Head, b"/f.txt", None, None));
    assert_eq!(res, Response { status: 200, headers: base(REVALIDATE), body: false });
}

#[test]
fn options_lists_the_methods() {
    let res = plain(&request(Method::Options, b"/f.txt", None, Some(b"*")));
    let mut headers = base(REVALIDATE);
    headers.push((HeaderName::Allow, ALLOW.to_vec()));
    assert_eq!(res, Response { status: 204, headers, body: false });
}

#[test]
fn other_methods_are_refused() {
    let res = plain(&request(Method::Other, b"/f.txt", None, Some(b"*")));
    assert_eq!(
        res,
        Response { status: 405, headers: vec![(HeaderName::Allow, ALLOW.to_vec())], body: false }
    );
    let busted = respond_guard(
        &request(Method::Other, b"/f.txt", None, None),
        MIME,
        ETAG,
        &CacheBusting::Query(b"v".to_vec()),
    );
    assert_eq!(busted.status, 405);
}

#[test]
fn matching_if_none_match_is_not_modified() {
    for value in [
        &b"\"q25fZAd-fY\""[..],
        b"*",
        b"\"other\", \"q25fZAd-fY\"",
        b"\"other\",\t\"q25fZAd-fY\" ,\"more\"",
        b"  * ",
    ] {
        for method in [Method::Get, Method::Head] {
            let res = plain(&request(method, b"/f.txt", None, Some(value)));
            assert_eq!(res, Response { status: 304, headers: base(REVALIDATE), body: false });
        }
    }
}

#[test]
fn other_if_none_match_is_served() {
    for value in [&b"\"other\""[..], b"q25fZAd-fY", b"", b"W/\"q25fZAd-fY\"", b"\"q25fZAd-fY\"x"] {
        let res = plain(&request(Method::Get, b"/f.txt", None, Some(value)));
        assert_eq!(res, Response { status: 200, headers: base(REVALIDATE), body: true });
    }
}

#[test]
fn query_busting_redirects_until_the_url_names_the_fingerprint() {
    let busting = CacheBusting::Query(b"v".to_vec());
    let res = respond_guard(&request(Method::Get, b"/f.js", None, None), MIME, ETAG, &busting);
    assert_eq!(
        res,
        Response {
            status: 307,
            headers: vec![(HeaderName::Location, b"/f.js?v=q25fZAd-fY".to_vec())],
            body: false,
        }
    );
    let res = respond_guard(
        &request(Method::Head, b"/f.js", Some(b"v=old&x=1"), Some(b"*")),
        MIME,
        ETAG,
        &busting,
    );
    assert_eq!(res.status, 307);
    assert_eq!(res.headers, vec![(HeaderName::Location, b"/f.js?v=q25fZAd-fY&x=1".to_vec())]);
    let res = respond_guard(
        &request(Method::Get, b"/f.js", Some(b"v=q25fZAd-fY"), None),
        MIME,
        ETAG,
        &busting,
    );
    assert_eq!(res, Response { status: 200, headers: base(IMMUTABLE), body: true });
}

#[test]
fn suffix_busting_redirects_until_the_path_names_the_fingerprint() {
    let busting = CacheBusting::Suffix(Some(b'.'));
    let res = respond_guard(&request(Method::Get, b"/f.js", Some(b"x=1"), None), MIME, ETAG, &busting);
    assert_eq!(
        res,
        Response {
            status: 307,
            headers: vec![(HeaderName::Location, b"/f.q25fZAd-fY.js".to_vec())],
            body: false,
        }
    );
    let res = respond_guard(
        &request(Method::Get, b"/f.q25fZAd-fY.js", None, Some(b"\"q25fZAd-fY\"")),
        MIME,
        ETAG,
        &busting,
    );
    assert_eq!(res, Response { status: 304, headers: base(IMMUTABLE), body: false });
    let res = respond_guard(
        &request(Method::Options, b"/f.q25fZAd-fY.js", None, None),
        MIME,
        ETAG,
        &CacheBusting::Suffix(None),
    );
    assert_eq!(res.status, 204);
    let res = respond_guard(
        &request(Method::Options, b"/f.js", None, None),
        MIME,
        ETAG,
        &CacheBusting::Suffix(None),
    );
    assert_eq!(res.status, 307);
    assert_eq!(res.headers, vec![(HeaderName::Location, b"/fq25fZAd-fY.js".to_vec())]);
}

#[test]
fn cache_control_follows_the_busting_mode() {
    assert_eq!(response_headers(MIME, ETAG, &CacheBusting::Disabled), base(REVALIDATE));
    assert_eq!(response_headers(MIME, ETAG, &CacheBusting::Query(b"v".to_vec())), base(IMMUTABLE));
    assert_eq!(response_headers(MIME, ETAG, &CacheBusting::Suffix(None)), base(IMMUTABLE));
}

#[test]
fn methods_are_read_from_their_tokens() {
    assert_eq!(Method::parse(b"GET"), Method::Get);
    assert_eq!(Method::parse(b"HEAD"), Method::Head);
    assert_eq!(Method::parse(b"OPTIONS"), Method::Options);
    assert_eq!(Method::parse(b"POST"), Method::Other);
    assert_eq!(Method::parse(b"get"), Method::Other);
    assert_eq!(Method::parse(b""), Method::Other);
}

#[test]
fn a_constant_file_responds() {
    let file = ConstHttpFile::new(b"hello", "text/plain", "\"q25fZAd-fY\"");
    assert_eq!(file.file, None);
    assert_eq!(file.content_type(), "text/plain");
    assert_eq!(file.etag(), "\"q25fZAd-fY\"");
    assert_eq!(file.etag_str(), "q25fZAd-fY");
    assert_eq!(file.const_etag_str(), "q25fZAd-fY");
    assert_eq!(file.data(), b"hello");
    assert_eq!(file.cache_busting(), &CacheBusting::Disabled);
    assert_eq!(file.clone_data(), b"hello");
    let get = request(Method::Get, b"/hello.txt", None, None);
    assert_eq!(file.respond_guard(&get), plain(&get));
    assert_eq!(file.respond_borrowed(&get), (plain(&get), b"hello".to_vec()));
    let head = request(Method::Head, b"/hello.txt", None, None);
    assert_eq!(file.respond_borrowed(&head), (plain(&head), Vec::new()));
    assert_eq!(file.response_headers(), base(REVALIDATE));
    assert_eq!(
        file.into_response(),
        (Response { status: 200, headers: base(REVALIDATE), body: true }, b"hello".to_vec())
    );
    assert_eq!(file.respond(&get).1, b"hello");
    assert_eq!(file.into_data(), b"hello");
}

#[test]
fn default_files_are_empty() {
    let file = ConstHttpFile::default();
    assert_eq!(file, ConstHttpFile::new(b"", "application/octet-data", ""));
    let shared = SharedHttpFile::default();
    assert_eq!(
        shared,
        SharedHttpFile::new(Vec::new(), "application/octet-data".to_string(), String::new())
    );
    assert_eq!(shared.const_etag_str(), "");
}

#[test]
fn a_shared_file_keeps_its_parts() {
    let file = SharedHttpFile::new_named(
        b"hi".to_vec(),
        "text/plain".to_string(),
        "\"abc\"".to_string(),
        "hi.txt".to_string(),
    );
    assert_eq!(file.file.as_deref(), Some("hi.txt"));
    assert_eq!(file.content_type(), "text/plain");
    assert_eq!(file.etag_str(), "abc");
    assert_eq!(file.const_etag_str(), "abc");
    assert_eq!(file.clone_data(), b"hi");
    assert_eq!(file.into_data(), b"hi");
}

#[test]
fn a_loaded_file_gets_its_type_and_fingerprint() {
    let file = StdHttpFile::new_with_data("dir/foo.html".to_string(), b"foo".to_vec());
    assert_eq!(file.mime, "text/html");
    assert_eq!(file.etag, "\"q25fZAd-fY\"");
    assert_eq!(file.file, "dir/foo.html");
    assert_eq!(file.data, b"foo");
    let sniffed = StdHttpFile::new_with_data("foo".to_string(), b"GIF89a".to_vec());
    assert_eq!(sniffed.mime, "image/gif");
    let unknown = StdHttpFile::new_with_data("foo".to_string(), b"foo".to_vec());
    assert_eq!(unknown.mime, "application/octet-data");
    let typed =
        StdHttpFile::new_with_mime_data("foo".to_string(), "text/x".to_string(), b"foo".to_vec());
    assert_eq!(typed.mime, "text/x");
    assert_eq!(typed.etag, "\"q25fZAd-fY\"");
    let given = StdHttpFile::new_with_mime_data_etag(
        "foo".to_string(),
        "text/x".to_string(),
        b"foo".to_vec(),
        "\"e\"".to_string(),
    );
    assert_eq!(given.etag(), "\"e\"");
    assert_eq!(given.etag_str(), "e");
}

#[test]
fn a_file_loaded_without_blocking_is_a_loaded_file() {
    let file = TokioHttpFile::new_with_data("dir/foo.html".to_string(), b"foo".to_vec());
    assert_eq!(file.content_type(), "text/html");
    assert_eq!(file.etag(), "\"q25fZAd-fY\"");
    assert_eq!(file.etag_str(), "q25fZAd-fY");
    assert_eq!(file.data(), b"foo");
    assert_eq!(file.cache_busting(), &CacheBusting::Disabled);
    let get = request(Method::Get, b"/dir/foo.html", None, Some(b"\"q25fZAd-fY\""));
    assert_eq!(file.respond_borrowed(&get).0.status, 304);
    let std = StdHttpFile::new_with_data("dir/foo.html".to_string(), b"foo".to_vec());
    assert_eq!(file.clone().into_std_file(), std);
    assert_eq!(std.into_tokio_file(), file);
    let typed = TokioHttpFile::new_with_mime_data(
        "foo".to_string(),
        "text/x".to_string(),
        b"foo".to_vec(),
    );
    assert_eq!(typed.content_type(), "text/x");
    assert_eq!(typed.etag(), "\"q25fZAd-fY\"");
    let given = TokioHttpFile::new_with_mime_data_etag(
        "foo".to_string(),
        "text/x".to_string(),
        b"foo".to_vec(),
        "\"e\"".to_string(),
    );
    assert_eq!(given.etag_str(), "e");
    assert_eq!(given.into_data(), b"foo");
}

#[test]
fn a_query_busted_file_names_its_fingerprint_in_its_url() {
    let inner = ConstHttpFile::new(b"foo", "text/plain", "\"q25fZAd-fY\"");
    let file = QueryCacheBustedHttpFile::new(b"/foo.txt", b"v".to_vec(), inner);
    assert_eq!(file.url(), b"/foo.txt?v=q25fZAd-fY");
    assert_eq!(file.cache_busting(), &CacheBusting::Query(b"v".to_vec()));
    assert_eq!(file.const_cache_busting(), &CacheBusting::Query(b"v".to_vec()));
    assert_eq!(file.const_content_type(), "text/plain");
    assert_eq!(file.const_etag(), "\"q25fZAd-fY\"");
    assert_eq!(file.const_etag_str(), "q25fZAd-fY");
    assert_eq!(file.const_data(), b"foo");
    assert_eq!(file.const_clone_data(), b"foo");
    assert_eq!(file.etag_str(), "q25fZAd-fY");
    let there = request(Method::Get, b"/foo.txt", Some(b"v=q25fZAd-fY"), None);
    let (res, body) = file.respond_borrowed(&there);
    assert_eq!(res, Response { status: 200, headers: base(IMMUTABLE), body: true });
    assert_eq!(body, b"foo");
    let bare = request(Method::Get, b"/foo.txt", None, None);
    let (res, body) = file.respond_borrowed(&bare);
    assert_eq!(res.status, 307);
    assert_eq!(res.headers, vec![(HeaderName::Location, file.url().clone())]);
    assert_eq!(body, b"");
    let made = QueryCacheBustedHttpFile::new_const(b"/x?-=e".to_vec(), b"-".to_vec(), inner);
    assert_eq!(made.url(), b"/x?-=e");
    assert_eq!(made.data(), b"foo");
}

#[test]
fn hidden_entries_are_not_exposed() {
    assert!(not_hidden(b"index.html"));
    assert!(not_hidden(b"a/b.c/d"));
    assert!(not_hidden(b""));
    assert!(not_hidden(b"a/"));
    assert!(!not_hidden(b".git"));
    assert!(!not_hidden(b"a/.git/config"));
    assert!(!not_hidden(b"a/b/."));
    assert!(!not_hidden(b"notes.txt~"));
    assert!(!not_hidden(b"~"));
}

#[test]
fn a_cold_directory_is_not_read_at_the_start() {
    assert_eq!(DirWarmup::default(), DirWarmup::Warm);
    assert!(DirWarmup::Warm.scans_at_start());
    assert!(DirWarmup::Hot.scans_at_start());
    assert!(!DirWarmup::Cold.scans_at_start());
}
