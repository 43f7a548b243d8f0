use static_http_file::{
    b64url_const, compute_etag, compute_etag_nonconst, etag_from_hash, etag_str,
};

#[test]
fn base64url_of_full_groups() {
    let (out, n) = b64url_const(b"foo", [0u8; 4], 0);
    assert_eq!(&out, b"Zm9v");
    assert_eq!(n, 4);
    let (out, n) = b64url_const(b"foobar", [0u8; 8], 0);
    assert_eq!(&out, b"Zm9vYmFy");
    assert_eq!(n, 8);
}

#[test]
fn base64url_of_a_remainder_has_no_padding() {
    let (out, n) = b64url_const(b"f", [b'.'; 4], 0);
    assert_eq!(&out, b"Zg..");
    assert_eq!(n, 2);
    let (out, n) = b64url_const(b"fo", [b'.'; 4], 0);
    assert_eq!(&out, b"Zm8.");
    assert_eq!(n, 3);
    let (out, n) = b64url_const(b"foob", [b'.'; 6], 0);
    assert_eq!(&out, b"Zm9vYg");
    assert_eq!(n, 6);
}

#[test]
fn base64url_uses_the_url_safe_alphabet() {
    let (out, n) = b64url_const(&[0xfb, 0xff], [0u8; 3], 0);
    assert_eq!(&out, b"-_8");
    assert_eq!(n, 3);
    let (out, _) = b64url_const(&[0x00, 0x10, 0x83, 0x10, 0x51, 0x87], [0u8; 8], 0);
    assert_eq!(&out, b"ABCDEFGH");
}

#[test]
fn base64url_writes_from_the_offset_and_keeps_the_rest() {
    let (out, n) = b64url_const(b"fo", [b'#'; 8], 2);
    assert_eq!(&out, b"##Zm8###");
    assert_eq!(n, 3);
    let (out, n) = b64url_const(b"fo", [b'#'; 5], 1);
    assert_eq!(&out, b"#Zm8#");
    assert_eq!(n, 3);
    let (out, n) = b64url_const(b"foo", [b'#'; 5], 1);
    assert_eq!(&out, b"#Zm9v");
    assert_eq!(n, 4);
    let (out, n) = b64url_const(b"", [b'#'; 2], 1);
    assert_eq!(&out, b"##");
    assert_eq!(n, 0);
}

#[test]
fn fingerprint_of_known_content() {
    assert_eq!(&compute_etag(b"foo"), b"\"q25fZAd-fY\"");
    assert_eq!(compute_etag_nonconst(b"foo"), "\"q25fZAd-fY\"");
}

#[test]
fn fingerprint_has_twelve_bytes_in_quotes() {
    let inputs: [&[u8]; 5] = [b"", b"a", b"foo", b"hello world", &[0u8; 1000]];
    for data in inputs {
        let etag = compute_etag(data);
        assert_eq!(etag.len(), 12);
        assert_eq!(etag[0], b'"');
        assert_eq!(etag[11], b'"');
        for c in &etag[1..11] {
            assert!(c.is_ascii_alphanumeric() || *c == b'-' || *c == b'_');
        }
    }
}

#[test]
fn fingerprint_is_stable_and_the_same_on_both_paths() {
    let data = b"the same bytes";
    assert_eq!(compute_etag(data), compute_etag(data));
    assert_eq!(compute_etag_nonconst(data).as_bytes(), &compute_etag(data));
}

#[test]
fn fingerprint_differs_with_the_content() {
    assert_ne!(compute_etag(b"foo"), compute_etag(b"bar"));
    assert_ne!(compute_etag(b""), compute_etag(b"\0"));
}

#[test]
fn fingerprint_tells_hashes_apart_but_for_the_lowest_four_bits() {
    assert_eq!(etag_from_hash(0x1234_5678_9abc_def0), etag_from_hash(0x1234_5678_9abc_deff));
    assert_ne!(etag_from_hash(0x1234_5678_9abc_def0), etag_from_hash(0x1234_5678_9abc_dee0));
    assert_ne!(etag_from_hash(0), etag_from_hash(1 << 63));
    assert_ne!(etag_from_hash(0), etag_from_hash(1 << 4));
    assert_eq!(etag_from_hash(0), etag_from_hash(0xf));
}

#[test]
fn fingerprint_holds_the_first_ten_characters_of_the_hash() {
    assert_eq!(&etag_from_hash(0), b"\"AAAAAAAAAA\"");
    assert_eq!(&etag_from_hash(u64::MAX), b"\"__________\"");
    assert_eq!(&etag_from_hash(0x0010_8310_5187_2000), b"\"ABCDEFGHIA\"");
}

#[test]
fn quotes_come_off_only_where_both_are_there() {
    assert_eq!(etag_str("\"q25fZAd-fY\""), "q25fZAd-fY");
    assert_eq!(etag_str("\"a\""), "a");
    assert_eq!(etag_str("\"\""), "\"\"");
    assert_eq!(etag_str("\""), "\"");
    assert_eq!(etag_str(""), "");
    assert_eq!(etag_str("abc"), "abc");
    assert_eq!(etag_str("\"abc"), "\"abc");
    assert_eq!(etag_str("abc\""), "abc\"");
}
