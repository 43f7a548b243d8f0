//! Cache-busting URLs: whether a request URL carries the current fingerprint,
//! and the URL to redirect to where it does not.

use crate::mime::{ext_start, file_ext_start, lemma_ext_start};
use crate::text::{
    append_bytes, bytes_eq, ends_with, find_byte, has_suffix, index_of, last_index_of,
    lemma_index_of, lemma_last_index_of, matches_at, occurs_at, opt_bytes_view, opt_slice_view,
    rfind_byte,
};
use vstd::prelude::*;
use vstd::slice::slice_subrange;

verus! {

/// The value that `field` gives `key`: what follows the first `=` of the
/// field, where what precedes it is `key`.
pub open spec fn field_value(field: Seq<u8>, key: Seq<u8>) -> Option<Seq<u8>> {
    let e = index_of(field, 0x3d);
    if e < field.len() && field.take(e) == key {
        Some(field.skip(e + 1))
    } else {
        None
    }
}

/// Whether `field` is `key` alone or starts with `key` and `=`.
pub open spec fn is_key_field(field: Seq<u8>, key: Seq<u8>) -> bool {
    &&& occurs_at(field, 0, key)
    &&& (field.len() == key.len() || field[key.len() as int] == 0x3d)
}

/// The value of `key` in the query string `query`: that of the first of its
/// fields, which `&` separates, that gives `key` a value.
pub open spec fn query_value(query: Seq<u8>, key: Seq<u8>) -> Option<Seq<u8>>
    decreases query.len(),
{
    let n = index_of(query, 0x26);
    match field_value(query.take(n), key) {
        Some(v) => Some(v),
        None => if 0 <= n < query.len() {
            query_value(query.skip(n + 1), key)
        } else {
            None
        },
    }
}

/// The fields of `query` other than those of `key`, each after a `&`.
pub open spec fn other_fields(query: Seq<u8>, key: Seq<u8>) -> Seq<u8>
    decreases query.len(),
{
    let n = index_of(query, 0x26);
    let field = query.take(n);
    let head = if is_key_field(field, key) {
        Seq::<u8>::empty()
    } else {
        seq![0x26u8] + field
    };
    if 0 <= n < query.len() {
        head + other_fields(query.skip(n + 1), key)
    } else {
        head
    }
}

/// The query string with `key=etag` as its first parameter, and `tail`.
pub open spec fn busted_query(key: Seq<u8>, etag: Seq<u8>, tail: Seq<u8>) -> Seq<u8> {
    key + seq![0x3du8] + etag + tail
}

/// The URL with `key=etag` as its first query parameter: `path`, `?`, the
/// parameter, and `tail`.
pub open spec fn busted_query_url(path: Seq<u8>, key: Seq<u8>, etag: Seq<u8>, tail: Seq<u8>) -> Seq<
    u8,
> {
    path + seq![0x3fu8] + busted_query(key, etag, tail)
}

/// What follows `key=etag` in the new query string: the fields of the old
/// one, each after a `&`, without those of `key`, be they `key` alone or
/// `key` with a value. Nothing follows where there was no query string or
/// an empty one.
pub open spec fn query_tail(query: Option<Seq<u8>>, key: Seq<u8>) -> Seq<u8> {
    match query {
        None => Seq::empty(),
        Some(q) => if q.len() > 0 {
            other_fields(q, key)
        } else {
            Seq::empty()
        },
    }
}

/// The URL to redirect to under query busting, or `None` where the query
/// string already gives `key` the value `etag`. The new URL has `key=etag`
/// first, and then what `query_tail` keeps of the old query string.
pub open spec fn query_rewrite(
    path: Seq<u8>,
    query: Option<Seq<u8>>,
    key: Seq<u8>,
    etag: Seq<u8>,
) -> Option<Seq<u8>> {
    if query is Some && query_value(query->0, key) == Some(etag) {
        None
    } else {
        Some(busted_query_url(path, key, etag, query_tail(query, key)))
    }
}

/// Whether `c` does not occur in `s`.
pub open spec fn lacks(s: Seq<u8>, c: u8) -> bool {
    forall|i: int| 0 <= i < s.len() ==> #[trigger] s[i] != c
}

/// The first `c` of a sequence whose front part lacks `c` is the first `c`
/// of what follows that part.
pub proof fn lemma_index_of_after(a: Seq<u8>, b: Seq<u8>, c: u8)
    requires
        lacks(a, c),
    ensures
        index_of(a + b, c) == a.len() + index_of(b, c),
    decreases a.len(),
{
    if a.len() == 0 {
        assert(a + b =~= b);
    } else {
        assert((a + b)[0] == a[0]);
        assert((a + b).skip(1) =~= a.skip(1) + b);
        assert forall|i: int| 0 <= i < a.skip(1).len() implies #[trigger] a.skip(1)[i] != c by {
            assert(a.skip(1)[i] == a[i + 1]);
        }
        lemma_index_of_after(a.skip(1), b, c);
    }
}

/// The fields that are kept are empty or start with `&`.
pub proof fn lemma_other_fields_start(query: Seq<u8>, key: Seq<u8>)
    ensures
        other_fields(query, key).len() == 0 || other_fields(query, key)[0] == 0x26,
    decreases query.len(),
{
    let n = index_of(query, 0x26);
    lemma_index_of(query, 0x26);
    if 0 <= n < query.len() {
        lemma_other_fields_start(query.skip(n + 1), key);
    }
}

/// A URL that query busting has redirected to is not redirected again: its
/// query string gives `key` the value `etag`. This holds where the parameter
/// name has neither `&` nor `=` in it and the fingerprint has no `&`.
pub proof fn lemma_query_rewrite_settles(
    path: Seq<u8>,
    query: Option<Seq<u8>>,
    key: Seq<u8>,
    etag: Seq<u8>,
)
    requires
        lacks(key, 0x26),
        lacks(key, 0x3d),
        lacks(etag, 0x26),
    ensures
        query_value(busted_query(key, etag, query_tail(query, key)), key) == Some(etag),
        query_rewrite(path, Some(busted_query(key, etag, query_tail(query, key))), key, etag)
            is None,
{
    let tail = query_tail(query, key);
    let head = key + seq![0x3du8] + etag;
    let q = busted_query(key, etag, tail);
    assert(q =~= head + tail);
    if let Some(old) = query {
        lemma_other_fields_start(old, key);
    }
    assert(tail.len() == 0 || tail[0] == 0x26);
    assert(lacks(head, 0x26));
    lemma_index_of_after(head, tail, 0x26);
    assert(index_of(tail, 0x26) == 0);
    let n = index_of(q, 0x26);
    assert(n == head.len());
    let field = q.take(n);
    assert(field =~= head);
    assert(head =~= key + (seq![0x3du8] + etag));
    lemma_index_of_after(key, seq![0x3du8] + etag, 0x3d);
    assert(index_of(seq![0x3du8] + etag, 0x3d) == 0);
    assert(field.take(key.len() as int) =~= key);
    assert(field.skip(key.len() as int + 1) =~= etag);
}

/// The value that `field` gives `key`, if any.
fn value_in_field<'a>(field: &'a [u8], key: &[u8]) -> (value: Option<&'a [u8]>)
    ensures
        opt_slice_view(value) == field_value(field@, key@),
{
    let e = find_byte(field, 0x3d);
    if e < field.len() && bytes_eq(slice_subrange(field, 0, e), key) {
        let value = slice_subrange(field, e + 1, field.len());
        proof {
            assert(field@.subrange(0, e as int) =~= field@.take(e as int));
            assert(value@ =~= field@.skip(e + 1));
        }
        Some(value)
    } else {
        proof {
            assert(field@.subrange(0, e as int) =~= field@.take(e as int));
        }
        None
    }
}

/// Finds the value of `key` in a query string.
pub fn find_query_value<'a>(query: &'a [u8], key: &[u8]) -> (value: Option<&'a [u8]>)
    ensures
        opt_slice_view(value) == query_value(query@, key@),
{
    let mut pos: usize = 0;
    proof {
        assert(query@.skip(0) =~= query@);
    }
    loop
        invariant
            pos <= query@.len(),
            query_value(query@, key@) == query_value(query@.skip(pos as int), key@),
        decreases query@.len() - pos,
    {
        let rest = slice_subrange(query, pos, query.len());
        let n = find_byte(rest, 0x26);
        let field = slice_subrange(rest, 0, n);
        proof {
            assert(rest@ =~= query@.skip(pos as int));
            assert(field@ =~= rest@.take(n as int));
            if n < rest@.len() {
                assert(rest@.skip(n + 1) =~= query@.skip(pos + n + 1));
            }
        }
        match value_in_field(field, key) {
            Some(v) => {
                return Some(v);
            },
            None => {},
        }
        if n >= rest.len() {
            return None;
        }
        pos = pos + n + 1;
    }
}

/// Appends to `out` the fields of `query` other than those of `key`, each
/// after a `&`.
fn append_other_fields(out: &mut Vec<u8>, query: &[u8], key: &[u8])
    ensures
        final(out)@ == old(out)@ + other_fields(query@, key@),
{
    let mut pos: usize = 0;
    proof {
        assert(query@.skip(0) =~= query@);
    }
    loop
        invariant
            pos <= query@.len(),
            old(out)@ + other_fields(query@, key@) == out@ + other_fields(
                query@.skip(pos as int),
                key@,
            ),
        decreases query@.len() - pos,
    {
        let rest = slice_subrange(query, pos, query.len());
        let n = find_byte(rest, 0x26);
        let field = slice_subrange(rest, 0, n);
        proof {
            assert(rest@ =~= query@.skip(pos as int));
            assert(field@ =~= rest@.take(n as int));
            if n < rest@.len() {
                assert(rest@.skip(n + 1) =~= query@.skip(pos + n + 1));
            }
        }
        let ghost before = out@;
        let of_key = matches_at(field, 0, key) && (field.len() == key.len() || field[key.len()]
            == 0x3d);
        if !of_key {
            out.push(0x26);
            append_bytes(out, field);
        }
        let ghost head = if is_key_field(field@, key@) {
            Seq::<u8>::empty()
        } else {
            seq![0x26u8] + field@
        };
        proof {
            assert(out@ =~= before + head);
        }
        if n >= rest.len() {
            proof {
                assert(before + head =~= before + other_fields(rest@, key@));
            }
            return ;
        }
        proof {
            assert(before + (head + other_fields(rest@.skip(n + 1), key@)) =~= out@ + other_fields(
                query@.skip(pos + n + 1),
                key@,
            ));
        }
        pos = pos + n + 1;
    }
}

/// Decides whether a request must be redirected under query busting, and to
/// where. `path` and `query` are those of the request URL, `query_key` the
/// name of the parameter that carries the fingerprint, `etag_str` the
/// fingerprint without quotes. Returns the URL to redirect to, or `None`
/// where the request already names the fingerprint.
pub fn cachebust_uri(path: &[u8], query: Option<&[u8]>, query_key: &[u8], etag_str: &[u8]) -> (res:
    Option<Vec<u8>>)
    ensures
        opt_bytes_view(res) == query_rewrite(
            path@,
            opt_slice_view(query),
            query_key@,
            etag_str@,
        ),
{
    let value = match query {
        Some(q) => find_query_value(q, query_key),
        None => None,
    };
    match value {
        Some(v) => {
            if bytes_eq(v, etag_str) {
                return None;
            }
        },
        None => {},
    }
    let mut url: Vec<u8> = Vec::new();
    append_bytes(&mut url, path);
    url.push(0x3f);
    append_bytes(&mut url, query_key);
    url.push(0x3d);
    append_bytes(&mut url, etag_str);
    let ghost head = url@;
    match query {
        Some(q) => {
            if q.len() > 0 {
                append_other_fields(&mut url, q, query_key);
            }
        },
        None => {},
    }
    proof {
        let tail = query_tail(opt_slice_view(query), query_key@);
        assert(head =~= busted_query_url(path@, query_key@, etag_str@, Seq::empty()));
        assert(url@ =~= head + tail);
        assert(url@ =~= busted_query_url(path@, query_key@, etag_str@, tail));
    }
    Some(url)
}

/// Whether `name` ends with `etag`, something precedes it, and, where a
/// separator is set, that is the separator.
pub open spec fn carries_tag(name: Seq<u8>, etag: Seq<u8>, sep: Option<u8>) -> bool {
    &&& ends_with(name, etag)
    &&& name.len() > etag.len()
    &&& match sep {
        Some(c) => name[name.len() - etag.len() - 1] == c,
        None => true,
    }
}

/// `base` without a stale tag: cut at its last `sep`, where that lies after
/// the last `/` (after the first byte where there is no `/`).
pub open spec fn strip_stale(base: Seq<u8>, sep: u8) -> Seq<u8> {
    let floor = match last_index_of(base, 0x2f) {
        Some(s) => s,
        None => 0,
    };
    match last_index_of(base, sep) {
        Some(p) => if floor < p {
            base.take(p)
        } else {
            base
        },
        None => base,
    }
}

/// `base` with the tag: without a stale tag and with the separator before
/// `etag` where a separator is set, else `etag` straight after it.
pub open spec fn tagged(base: Seq<u8>, etag: Seq<u8>, sep: Option<u8>) -> Seq<u8> {
    match sep {
        Some(c) => strip_stale(base, c) + seq![c] + etag,
        None => base + etag,
    }
}

/// The path to redirect to under suffix busting, or `None` where the path,
/// or the path without its extension, already carries the tag. The new path
/// is the path without its extension, tagged, and the extension again.
pub open spec fn suffix_rewrite(path: Seq<u8>, etag: Seq<u8>, sep: Option<u8>) -> Option<Seq<u8>> {
    if carries_tag(path, etag, sep) {
        None
    } else {
        match ext_start(path, path.len() as int) {
            Some(i) => {
                let base = path.take(i - 1);
                if carries_tag(base, etag, sep) {
                    None
                } else {
                    Some(tagged(base, etag, sep) + seq![0x2eu8] + path.skip(i))
                }
            },
            None => Some(tagged(path, etag, sep)),
        }
    }
}

/// Tests whether `name` carries the tag.
fn has_tag(name: &[u8], etag: &[u8], sep: Option<u8>) -> (r: bool)
    ensures
        r == carries_tag(name@, etag@, sep),
{
    if has_suffix(name, etag) && name.len() > etag.len() {
        match sep {
            Some(c) => name[name.len() - etag.len() - 1] == c,
            None => true,
        }
    } else {
        false
    }
}

/// Returns `base`, tagged.
fn tag_name(base: &[u8], etag: &[u8], sep: Option<u8>) -> (out: Vec<u8>)
    ensures
        out@ == tagged(base@, etag@, sep),
{
    let mut out: Vec<u8> = Vec::new();
    match sep {
        Some(c) => {
            let floor = match rfind_byte(base, 0x2f) {
                Some(s) => s,
                None => 0,
            };
            let keep = match rfind_byte(base, c) {
                Some(p) => if floor < p {
                    p
                } else {
                    base.len()
                },
                None => base.len(),
            };
            proof {
                lemma_last_index_of(base@, c);
                assert(base@.take(base@.len() as int) =~= base@);
            }
            let kept = slice_subrange(base, 0, keep);
            proof {
                assert(kept@ =~= strip_stale(base@, c));
            }
            append_bytes(&mut out, kept);
            out.push(c);
            append_bytes(&mut out, etag);
        },
        None => {
            append_bytes(&mut out, base);
            append_bytes(&mut out, etag);
        },
    }
    out
}

/// Decides whether a request must be redirected under suffix busting, and to
/// where. `path` is that of the request URL, `etag_str` the fingerprint
/// without quotes, `left_sep` the byte that separates the file's base name
/// from the fingerprint, if one is used. Returns the path to redirect to, or
/// `None` where the request already names the fingerprint.
pub fn cachebust_suffix(path: &[u8], etag_str: &[u8], left_sep: Option<u8>) -> (res: Option<
    Vec<u8>,
>)
    ensures
        opt_bytes_view(res) == suffix_rewrite(path@, etag_str@, left_sep),
{
    if has_tag(path, etag_str, left_sep) {
        return None;
    }
    match file_ext_start(path) {
        Some(i) => {
            proof {
                lemma_ext_start(path@, path@.len() as int);
            }
            let base = slice_subrange(path, 0, i - 1);
            let ext = slice_subrange(path, i, path.len());
            proof {
                assert(base@ =~= path@.take(i - 1));
                assert(ext@ =~= path@.skip(i as int));
            }
            if has_tag(base, etag_str, left_sep) {
                return None;
            }
            let mut out = tag_name(base, etag_str, left_sep);
            out.push(0x2e);
            append_bytes(&mut out, ext);
            Some(out)
        },
        None => Some(tag_name(path, etag_str, left_sep)),
    }
}

/// Scanning backwards over bytes that are neither `.` nor a path separator
/// ends just after the `.` that precedes them.
pub proof fn lemma_ext_start_scan(s: Seq<u8>, lo: int, end: int)
    requires
        0 < lo <= end <= s.len(),
        s[lo - 1] == 0x2e,
        forall|j: int| lo <= j < end ==> #[trigger] s[j] != 0x2e && s[j] != 0x2f && s[j] != 0x5c,
    ensures
        ext_start(s, end) == Some(lo),
    decreases end - lo,
{
    if lo < end {
        lemma_ext_start_scan(s, lo, end - 1);
    }
}

/// A path that suffix busting has redirected to is not redirected again.
/// Without a separator this holds where the file has a base name, that is,
/// where something stands before the extension, or the path is not empty
/// where there is no extension.
pub proof fn lemma_suffix_rewrite_settles(path: Seq<u8>, etag: Seq<u8>, sep: Option<u8>)
    requires
        sep is None ==> match ext_start(path, path.len() as int) {
            Some(i) => i > 1,
            None => path.len() > 0,
        },
    ensures
        match suffix_rewrite(path, etag, sep) {
            Some(new_path) => suffix_rewrite(new_path, etag, sep) is None,
            None => true,
        },
{
    if let Some(new_path) = suffix_rewrite(path, etag, sep) {
        lemma_ext_start(path, path.len() as int);
        let base = match ext_start(path, path.len() as int) {
            Some(i) => path.take(i - 1),
            None => path,
        };
        let name = tagged(base, etag, sep);
        assert(carries_tag(name, etag, sep)) by {
            match sep {
                Some(c) => {
                    let kept = strip_stale(base, c);
                    assert(name =~= kept + seq![c] + etag);
                    assert(name.skip(name.len() - etag.len()) =~= etag);
                    assert(name[name.len() - etag.len() - 1] == c);
                },
                None => {
                    assert(name.skip(name.len() - etag.len()) =~= etag);
                },
            }
        }
        if let Some(i) = ext_start(path, path.len() as int) {
            let ext = path.skip(i);
            assert(new_path =~= name + seq![0x2eu8] + ext);
            if !carries_tag(new_path, etag, sep) {
                assert forall|j: int| name.len() + 1 <= j < new_path.len() implies #[trigger] new_path[j]
                    != 0x2e && new_path[j] != 0x2f && new_path[j] != 0x5c by {
                    assert(new_path[j] == path[i + (j - name.len() - 1)]);
                }
                lemma_ext_start_scan(new_path, name.len() as int + 1, new_path.len() as int);
                assert(new_path.take(name.len() as int) =~= name);
            }
        }
    }
}

} // verus!
