use static_http_file::{
    parse_query_string_iter_fn, urldecode, urldecode_into, urldecode_iter_fn, urldecode_queue,
    urldecode_queue_into, urlencode, urlencode_into, urlencode_iter_fn, urlencode_queue,
    urlencode_queue_into, QueryStringIterator,
};

fn chunks(parts: &[&[u8]]) -> Vec<Vec<u8>> {
    parts.iter().map(|p| p.to_vec()).collect()
}

#[test]
fn encode_step_takes_the_longest_safe_run() {
    assert_eq!(urlencode_iter_fn(b"abc-_.~XYZ019 rest"), (b"abc-_.~XYZ019".to_vec(), 13));
    assert_eq!(urlencode_iter_fn(b"abc"), (b"abc".to_vec(), 3));
    assert_eq!(urlencode_iter_fn(b""), (Vec::new(), 0));
}

#[test]
fn encode_step_takes_up_to_four_unsafe_bytes() {
    assert_eq!(urlencode_iter_fn(b" a"), (b"%20".to_vec(), 1));
    assert_eq!(urlencode_iter_fn(b"/?#"), (b"%2F%3F%23".to_vec(), 3));
    assert_eq!(urlencode_iter_fn(b"     "), (b"%20%20%20%20".to_vec(), 4));
    assert_eq!(urlencode_iter_fn(&[0x00, 0xff, 0x7f]), (b"%00%FF%7F".to_vec(), 3));
}

#[test]
fn encode_yields_chunks_that_join_to_the_encoding() {
    assert_eq!(urlencode(b"a b"), chunks(&[b"a", b"%20", b"b"]));
    assert_eq!(urlencode(b"      x"), chunks(&[b"%20%20%20%20", b"%20%20", b"x"]));
    assert_eq!(urlencode(b""), chunks(&[]));
    assert_eq!(urlencode(b"k=v&x").concat(), b"k%3Dv%26x");
    assert_eq!(urlencode("\u{e9}".as_bytes()).concat(), b"%C3%A9");
}

#[test]
fn encode_into_appends_to_what_is_there() {
    let mut builder = chunks(&[b"pre"]);
    urlencode_into(b"a/b", &mut builder);
    assert_eq!(builder, chunks(&[b"pre", b"a", b"%2F", b"b"]));
}

#[test]
fn encode_queue_encodes_chunk_by_chunk() {
    let input = chunks(&[b"ab", b"c d", b""]);
    assert_eq!(urlencode_queue(&input), chunks(&[b"ab", b"c", b"%20", b"d"]));
    let mut builder = chunks(&[b"x"]);
    urlencode_queue_into(&input, &mut builder);
    assert_eq!(builder.concat(), b"xabc%20d");
}

#[test]
fn decode_step_takes_the_run_before_a_percent() {
    assert_eq!(urldecode_iter_fn(b"abc%20"), (b"abc".to_vec(), 3));
    assert_eq!(urldecode_iter_fn(b"a+b c"), (b"a+b c".to_vec(), 5));
    assert_eq!(urldecode_iter_fn(b""), (Vec::new(), 0));
}

#[test]
fn decode_step_takes_up_to_fourteen_triplets() {
    assert_eq!(urldecode_iter_fn(b"%20%41x"), (b" A".to_vec(), 6));
    assert_eq!(urldecode_iter_fn(b"%2f%2F"), (b"//".to_vec(), 6));
    let many = b"%61".repeat(20);
    assert_eq!(urldecode_iter_fn(&many), (b"a".repeat(14), 42));
}

#[test]
fn decode_step_stops_at_a_malformed_triplet() {
    assert_eq!(urldecode_iter_fn(b"%"), (Vec::new(), 0));
    assert_eq!(urldecode_iter_fn(b"%2"), (Vec::new(), 0));
    assert_eq!(urldecode_iter_fn(b"%zz"), (Vec::new(), 0));
    assert_eq!(urldecode_iter_fn(b"%2g"), (Vec::new(), 0));
    assert_eq!(urldecode_iter_fn(b"%41%4"), (b"A".to_vec(), 3));
}

#[test]
fn decode_joins_to_the_decoded_bytes() {
    assert_eq!(urldecode(b"a%20b"), Ok(chunks(&[b"a", b" ", b"b"])));
    assert_eq!(urldecode(b""), Ok(chunks(&[])));
    assert_eq!(urldecode(b"%C3%A9").unwrap().concat(), "\u{e9}".as_bytes());
}

#[test]
fn decode_reports_the_undecoded_remainder() {
    assert_eq!(urldecode(b"ab%2"), Err((chunks(&[b"ab"]), b"%2".to_vec())));
    assert_eq!(urldecode(b"%41%zzrest"), Err((chunks(&[b"A"]), b"%zzrest".to_vec())));
    assert_eq!(urldecode(b"%"), Err((chunks(&[]), b"%".to_vec())));
    let mut builder = chunks(&[b"pre"]);
    assert_eq!(urldecode_into(b"x%", &mut builder), Err(b"%".to_vec()));
    assert_eq!(builder, chunks(&[b"pre", b"x"]));
}

#[test]
fn decode_queue_stops_in_the_chunk_that_fails() {
    let input = chunks(&[b"a%20", b"b%2", b"0c"]);
    assert_eq!(
        urldecode_queue(&input),
        Err((chunks(&[b"a", b" ", b"b"]), chunks(&[b"%2", b"0c"])))
    );
    let good = chunks(&[b"a%20", b"", b"%41"]);
    assert_eq!(urldecode_queue(&good), Ok(chunks(&[b"a", b" ", b"A"])));
    let mut builder = Vec::new();
    assert_eq!(urldecode_queue_into(&good, &mut builder), Ok(()));
    assert_eq!(builder.concat(), b"a A");
}

#[test]
fn decoding_an_encoding_gives_the_bytes_back() {
    let all: Vec<u8> = (0..=255u8).collect();
    let encoded = urlencode(&all).concat();
    assert_eq!(urldecode(&encoded).unwrap().concat(), all);
    for data in [&b""[..], b"plain", b"a b&c=d/e?f#g%h", "\u{1f600}".as_bytes()] {
        let encoded = urlencode(data).concat();
        assert_eq!(urldecode(&encoded).unwrap().concat(), data);
    }
}

#[test]
fn query_field_with_and_without_a_value() {
    assert_eq!(
        parse_query_string_iter_fn(b"a=1&b"),
        (Some((b"a".to_vec(), Some(b"1".to_vec()))), 4)
    );
    assert_eq!(parse_query_string_iter_fn(b"b"), (Some((b"b".to_vec(), None)), 1));
    assert_eq!(
        parse_query_string_iter_fn(b"b="),
        (Some((b"b".to_vec(), Some(Vec::new()))), 2)
    );
    assert_eq!(
        parse_query_string_iter_fn(b"&&k=a=b&&x"),
        (Some((b"k".to_vec(), Some(b"a=b".to_vec()))), 9)
    );
    assert_eq!(
        parse_query_string_iter_fn(b"a%20b=c%26d"),
        (Some((b"a b".to_vec(), Some(b"c&d".to_vec()))), 11)
    );
}

#[test]
fn query_field_that_is_empty_or_does_not_decode() {
    assert_eq!(parse_query_string_iter_fn(b""), (None, 0));
    assert_eq!(parse_query_string_iter_fn(b"&&&"), (None, 3));
    assert_eq!(parse_query_string_iter_fn(b"k=%zz&x=1"), (None, 5));
    assert_eq!(parse_query_string_iter_fn(b"%zz=v&x=1"), (None, 6));
    assert_eq!(parse_query_string_iter_fn(b"%zz&x"), (None, 4));
}

#[test]
fn query_pairs_in_order() {
    let mut it = QueryStringIterator::new(b"a=1&b&&c=%20&k=%zz&&d=4&".to_vec());
    assert_eq!(it.next(), Some((b"a".to_vec(), Some(b"1".to_vec()))));
    assert_eq!(it.next(), Some((b"b".to_vec(), None)));
    assert_eq!(it.next(), Some((b"c".to_vec(), Some(b" ".to_vec()))));
    assert_eq!(it.next(), Some((b"d".to_vec(), Some(b"4".to_vec()))));
    assert_eq!(it.next(), None);
    assert_eq!(it.next(), None);
    let mut none = QueryStringIterator::new(Vec::new());
    assert_eq!(none.next(), None);
}
