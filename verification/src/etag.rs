//! Content fingerprints: a quoted ETag derived from a 64-bit hash of the
//! content.

use crate::b64::{b64url_char, b64url_const, b64url_encode, b64url_len, b64url_sextet};
use crate::text::{lemma_boundary_after_ascii, lemma_boundary_at_ascii};
use vstd::prelude::*;
use vstd::string::*;
use vstd::utf8::*;

verus! {

/// The XXH3 64-bit hash of `data`, with the default secret and no seed.
pub uninterp spec fn xxh3_64_value(data: Seq<u8>) -> u64;

/// Calls `xxhash_rust::xxh3::xxh3_64`. The hash depends on the bytes hashed
/// and on nothing else; the contract names it and says no more of it.
#[verifier::external_body]
fn xxh3_64(data: &[u8]) -> (h: u64)
    ensures
        h == xxh3_64_value(data@),
{
    xxhash_rust::xxh3::xxh3_64(data)
}

/// Calls `String::from_utf8`, which gives the string whose UTF-8 encoding the
/// bytes are, and fails exactly when they are not well-formed UTF-8.
#[verifier::external_body]
fn string_from_utf8(bytes: Vec<u8>) -> (res: Option<String>)
    ensures
        match res {
            Some(s) => valid_utf8(bytes@) && encode_utf8(s@) == bytes@,
            None => !valid_utf8(bytes@),
        },
{
    String::from_utf8(bytes).ok()
}

/// The eight bytes of `h`, most significant first.
pub open spec fn be_bytes(h: u64) -> Seq<u8> {
    seq![
        ((h >> 56) & 0xff) as u8,
        ((h >> 48) & 0xff) as u8,
        ((h >> 40) & 0xff) as u8,
        ((h >> 32) & 0xff) as u8,
        ((h >> 24) & 0xff) as u8,
        ((h >> 16) & 0xff) as u8,
        ((h >> 8) & 0xff) as u8,
        (h & 0xff) as u8,
    ]
}

/// The number of base64url characters of the hash that a fingerprint holds.
pub const ETAG_CHARS: usize = 10;

/// The fingerprint for the hash `h`: a quote, the first ten characters of the
/// base64url encoding of the hash's big-endian bytes, and a quote.
pub open spec fn etag_of_hash(h: u64) -> Seq<u8> {
    seq![0x22u8] + b64url_encode(be_bytes(h)).take(ETAG_CHARS as int) + seq![0x22u8]
}

/// The fingerprint of `data`.
pub open spec fn etag_spec(data: Seq<u8>) -> Seq<u8> {
    etag_of_hash(xxh3_64_value(data))
}

/// Whether `c` is a character of the base64url alphabet.
pub open spec fn is_b64url_char(c: u8) -> bool {
    ||| 0x41 <= c <= 0x5a
    ||| 0x61 <= c <= 0x7a
    ||| 0x30 <= c <= 0x39
    ||| c == 0x2d
    ||| c == 0x5f
}

/// A fingerprint has twelve bytes: a quote at either end and ten characters
/// of the base64url alphabet between them.
pub proof fn lemma_etag_shape(h: u64)
    ensures
        etag_of_hash(h).len() == 12,
        etag_of_hash(h)[0] == 0x22,
        etag_of_hash(h)[11] == 0x22,
        forall|i: int| 1 <= i <= 10 ==> is_b64url_char(#[trigger] etag_of_hash(h)[i]),
        forall|i: int| 0 <= i < 12 ==> #[trigger] etag_of_hash(h)[i] <= 0x7f,
{
    let e = b64url_encode(be_bytes(h));
    assert(e.len() == 11);
    assert forall|i: int| 1 <= i <= 10 implies is_b64url_char(#[trigger] etag_of_hash(h)[i]) by {
        assert(etag_of_hash(h)[i] == e[i - 1]);
        assert(e[i - 1] == b64url_char(b64url_sextet(be_bytes(h), i - 1)));
    }
}

/// The fingerprints of the same bytes are the same, and every fingerprint has
/// the shape of `lemma_etag_shape`.
pub proof fn lemma_etag_stable(a: Seq<u8>, b: Seq<u8>)
    requires
        a == b,
    ensures
        etag_spec(a) == etag_spec(b),
        etag_spec(a).len() == 12,
        etag_spec(a)[0] == 0x22,
        etag_spec(a)[11] == 0x22,
{
    lemma_etag_shape(xxh3_64_value(a));
}

/// The six-bit values of an encoding are below 64.
proof fn lemma_sextet_bounds(x: u8, y: u8)
    by (bit_vector)
    ensures
        x >> 2 < 64,
        ((x & 0b0011) << 4) | (y >> 4) < 64,
        ((x & 0b1111) << 2) | (y >> 6) < 64,
        x & 0b111111 < 64,
{
}

/// Three bytes are told by the four six-bit values that encode them.
proof fn lemma_group_told(x0: u8, x1: u8, x2: u8, y0: u8, y1: u8, y2: u8)
    by (bit_vector)
    requires
        x0 >> 2 == y0 >> 2,
        ((x0 & 0b0011) << 4) | (x1 >> 4) == ((y0 & 0b0011) << 4) | (y1 >> 4),
        ((x1 & 0b1111) << 2) | (x2 >> 6) == ((y1 & 0b1111) << 2) | (y2 >> 6),
        x2 & 0b111111 == y2 & 0b111111,
    ensures
        x0 == y0,
        x1 == y1,
        x2 == y2,
{
}

/// A byte and the upper half of the next are told by the two six-bit values
/// that start their encoding.
proof fn lemma_tail_told(x0: u8, x1: u8, y0: u8, y1: u8)
    by (bit_vector)
    requires
        x0 >> 2 == y0 >> 2,
        ((x0 & 0b0011) << 4) | (x1 >> 4) == ((y0 & 0b0011) << 4) | (y1 >> 4),
    ensures
        x0 == y0,
        x1 >> 4 == y1 >> 4,
{
}

/// Two hashes agree in all but their lowest four bits where their first seven
/// bytes agree and so does the upper half of the eighth.
proof fn lemma_top_bits(h1: u64, h2: u64)
    by (bit_vector)
    requires
        ((h1 >> 56) & 0xff) as u8 == ((h2 >> 56) & 0xff) as u8,
        ((h1 >> 48) & 0xff) as u8 == ((h2 >> 48) & 0xff) as u8,
        ((h1 >> 40) & 0xff) as u8 == ((h2 >> 40) & 0xff) as u8,
        ((h1 >> 32) & 0xff) as u8 == ((h2 >> 32) & 0xff) as u8,
        ((h1 >> 24) & 0xff) as u8 == ((h2 >> 24) & 0xff) as u8,
        ((h1 >> 16) & 0xff) as u8 == ((h2 >> 16) & 0xff) as u8,
        ((h1 >> 8) & 0xff) as u8 == ((h2 >> 8) & 0xff) as u8,
        ((h1 & 0xff) as u8) >> 4 == ((h2 & 0xff) as u8) >> 4,
    ensures
        h1 >> 4 == h2 >> 4,
{
}

/// Two six-bit values with the same character are the same.
proof fn lemma_char_told(x: u8, y: u8)
    requires
        x < 64,
        y < 64,
        b64url_char(x) == b64url_char(y),
    ensures
        x == y,
{
}

/// The six-bit value at position `k` of the encoding of a hash, below 10, is
/// told by the fingerprint.
proof fn lemma_sextet_told(h1: u64, h2: u64, k: int)
    requires
        etag_of_hash(h1) == etag_of_hash(h2),
        0 <= k < 10,
    ensures
        b64url_sextet(be_bytes(h1), k) == b64url_sextet(be_bytes(h2), k),
{
    let a = be_bytes(h1);
    let b = be_bytes(h2);
    assert(b64url_len(8) == 11);
    assert(etag_of_hash(h1)[k + 1] == b64url_char(b64url_sextet(a, k)));
    assert(etag_of_hash(h2)[k + 1] == b64url_char(b64url_sextet(b, k)));
    let i = 3 * (k / 4);
    lemma_sextet_bounds(a[i], if i + 1 < 8 { a[i + 1] } else { 0 });
    lemma_sextet_bounds(if i + 1 < 8 { a[i + 1] } else { 0 }, if i + 2 < 8 { a[i + 2] } else { 0 });
    lemma_sextet_bounds(if i + 2 < 8 { a[i + 2] } else { 0 }, 0);
    lemma_sextet_bounds(b[i], if i + 1 < 8 { b[i + 1] } else { 0 });
    lemma_sextet_bounds(if i + 1 < 8 { b[i + 1] } else { 0 }, if i + 2 < 8 { b[i + 2] } else { 0 });
    lemma_sextet_bounds(if i + 2 < 8 { b[i + 2] } else { 0 }, 0);
    lemma_char_told(b64url_sextet(a, k), b64url_sextet(b, k));
}

/// Fingerprints tell hashes apart but for their lowest four bits: the ten
/// characters hold the upper sixty bits of the hash, one to one. So two
/// contents have the same fingerprint only where their hashes agree in those
/// sixty bits.
pub proof fn lemma_etag_tells_hash(h1: u64, h2: u64)
    ensures
        etag_of_hash(h1) == etag_of_hash(h2) ==> h1 >> 4 == h2 >> 4,
{
    if etag_of_hash(h1) == etag_of_hash(h2) {
        let a = be_bytes(h1);
        let b = be_bytes(h2);
        lemma_sextet_told(h1, h2, 0);
        lemma_sextet_told(h1, h2, 1);
        lemma_sextet_told(h1, h2, 2);
        lemma_sextet_told(h1, h2, 3);
        lemma_sextet_told(h1, h2, 4);
        lemma_sextet_told(h1, h2, 5);
        lemma_sextet_told(h1, h2, 6);
        lemma_sextet_told(h1, h2, 7);
        lemma_sextet_told(h1, h2, 8);
        lemma_sextet_told(h1, h2, 9);
        lemma_group_told(a[0], a[1], a[2], b[0], b[1], b[2]);
        lemma_group_told(a[3], a[4], a[5], b[3], b[4], b[5]);
        lemma_tail_told(a[6], a[7], b[6], b[7]);
        lemma_top_bits(h1, h2);
    }
}

/// Two contents have the same fingerprint only where their hashes agree in
/// all but the lowest four bits.
pub proof fn lemma_etag_tells_content(a: Seq<u8>, b: Seq<u8>)
    ensures
        etag_spec(a) == etag_spec(b) ==> xxh3_64_value(a) >> 4 == xxh3_64_value(b) >> 4,
{
    lemma_etag_tells_hash(xxh3_64_value(a), xxh3_64_value(b));
}

/// The eight bytes of `h`, most significant first.
fn u64_be_bytes(h: u64) -> (bytes: [u8; 8])
    ensures
        bytes@ == be_bytes(h),
{
    proof {
        assert((h >> 56) & 0xff < 256) by (bit_vector);
        assert((h >> 48) & 0xff < 256) by (bit_vector);
        assert((h >> 40) & 0xff < 256) by (bit_vector);
        assert((h >> 32) & 0xff < 256) by (bit_vector);
        assert((h >> 24) & 0xff < 256) by (bit_vector);
        assert((h >> 16) & 0xff < 256) by (bit_vector);
        assert((h >> 8) & 0xff < 256) by (bit_vector);
        assert(h & 0xff < 256) by (bit_vector);
    }
    let bytes = [
        ((h >> 56) & 0xff) as u8,
        ((h >> 48) & 0xff) as u8,
        ((h >> 40) & 0xff) as u8,
        ((h >> 32) & 0xff) as u8,
        ((h >> 24) & 0xff) as u8,
        ((h >> 16) & 0xff) as u8,
        ((h >> 8) & 0xff) as u8,
        (h & 0xff) as u8,
    ];
    proof {
        assert(bytes@ =~= be_bytes(h));
    }
    bytes
}

/// Renders the fingerprint for a hash.
pub fn etag_from_hash(h: u64) -> (etag: [u8; 12])
    ensures
        etag@ == etag_of_hash(h),
{
    let bytes = u64_be_bytes(h);
    let blank: [u8; 12] = [0, 0, 0, 0, 0, 0, 0, 0, 0, 0, 0, 0];
    let (mut etag, _n) = b64url_const(bytes.as_slice(), blank, 1);
    etag[0] = 0x22;
    etag[11] = 0x22;
    proof {
        assert(etag@ =~= etag_of_hash(h));
    }
    etag
}

/// Computes the fingerprint of `data`: the quoted, base64url-encoded XXH3
/// 64-bit hash of its bytes.
pub fn compute_etag(data: &[u8]) -> (etag: [u8; 12])
    ensures
        etag@ == etag_spec(data@),
        etag@[0] == 0x22,
        etag@[11] == 0x22,
{
    let h = xxh3_64(data);
    proof {
        lemma_etag_shape(h);
    }
    etag_from_hash(h)
}

/// Computes the fingerprint of `data` as a string. Its bytes are those that
/// `compute_etag` returns.
pub fn compute_etag_nonconst(data: &[u8]) -> (etag: String)
    ensures
        encode_utf8(etag@) == etag_spec(data@),
{
    let bytes = compute_etag(data);
    let owned = vstd::slice::slice_to_vec(bytes.as_slice());
    proof {
        lemma_etag_shape(xxh3_64_value(data@));
        assert(owned@.subrange(0, 0) =~= Seq::<u8>::empty());
        assert(partial_valid_utf8(owned@, 0));
        partial_valid_utf8_extend_ascii_block(owned@, 0, 12);
        assert(owned@.subrange(0, 12) =~= owned@);
    }
    match string_from_utf8(owned) {
        Some(s) => s,
        None => String::new(),
    }
}

/// A fingerprint without its quotes: they are taken off where both are
/// there and something stands between them.
pub open spec fn unquoted(etag: Seq<u8>) -> Seq<u8> {
    if etag.len() > 2 && etag[0] == 0x22 && etag[etag.len() - 1] == 0x22 {
        etag.subrange(1, etag.len() - 1)
    } else {
        etag
    }
}

/// Returns a fingerprint without its quotes.
pub fn etag_str(etag: &str) -> (bare: &str)
    ensures
        bare.spec_bytes() == unquoted(etag.spec_bytes()),
{
    let bytes = etag.as_bytes();
    let n = bytes.len();
    if n > 2 && bytes[0] == 0x22 && bytes[n - 1] == 0x22 {
        proof {
            encode_utf8_valid_utf8(etag@);
            lemma_boundary_at_ascii(etag.spec_bytes(), n - 1);
        }
        let (head, _) = etag.split_at(n - 1);
        proof {
            encode_utf8_valid_utf8(head@);
            lemma_boundary_after_ascii(head.spec_bytes(), 0);
        }
        let (_, bare) = head.split_at(1);
        proof {
            assert(bare.spec_bytes() =~= etag.spec_bytes().subrange(1, n - 1));
        }
        bare
    } else {
        etag
    }
}

/// Returns the bytes of a fingerprint without its quotes.
pub fn unquote(etag: &[u8]) -> (bare: &[u8])
    ensures
        bare@ == unquoted(etag@),
{
    let n = etag.len();
    if n > 2 && etag[0] == 0x22 && etag[n - 1] == 0x22 {
        vstd::slice::slice_subrange(etag, 1, n - 1)
    } else {
        etag
    }
}

} // verus!
