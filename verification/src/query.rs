//! A query-string parser: fields between `&`, key and value around the
//! first `=`, each side percent-decoded.

use crate::text::append_bytes;
use crate::urldecode::{percent_decode, urldecode};
use crate::urlencode::{concat, views};
use vstd::prelude::*;
use vstd::slice::slice_subrange;

verus! {

/// A key with its value as mathematical values; no value where the field had
/// no `=`.
pub type PairView = (Seq<u8>, Option<Seq<u8>>);

/// The view of a key with its value.
pub open spec fn pair_view(pair: (Vec<u8>, Option<Vec<u8>>)) -> PairView {
    (
        pair.0@,
        match pair.1 {
            Some(value) => Some(value@),
            None => None,
        },
    )
}

/// The view of an optional key with its value.
pub open spec fn opt_pair_view(pair: Option<(Vec<u8>, Option<Vec<u8>>)>) -> Option<PairView> {
    match pair {
        Some(p) => Some(pair_view(p)),
        None => None,
    }
}

/// The decoding of `s` where all of it decodes.
pub open spec fn full_decode(s: Seq<u8>) -> Option<Seq<u8>> {
    if percent_decode(s).1 == s.len() {
        Some(percent_decode(s).0)
    } else {
        None
    }
}

/// The first index from `from` on that holds no `&`.
pub open spec fn skip_amps(s: Seq<u8>, from: int) -> int
    decreases s.len() - from,
{
    if 0 <= from < s.len() && s[from] == 0x26 {
        skip_amps(s, from + 1)
    } else {
        from
    }
}

/// The first index from `from` on that holds `&`, or `=` where `stop_eq` is
/// set; the length of `s` where there is none.
pub open spec fn field_end(s: Seq<u8>, from: int, stop_eq: bool) -> int
    decreases s.len() - from,
{
    if 0 <= from < s.len() && !(s[from] == 0x26 || (stop_eq && s[from] == 0x3d)) {
        field_end(s, from + 1, stop_eq)
    } else {
        from
    }
}

/// The first field of the query string `s`, and the number of bytes read.
/// Leading `&` are passed over, and so are those that follow the field. The
/// key ends at the first `=` or `&`; a value follows only after `=`, and ends
/// at the next `&`. A side that does not decode gives no pair; where it is the
/// value, the `&` after it are not passed over.
pub open spec fn parse_step(s: Seq<u8>) -> (Option<PairView>, int) {
    let start = skip_amps(s, 0);
    if start >= s.len() {
        (None, s.len() as int)
    } else {
        let key_end = field_end(s, start, true);
        let key = full_decode(s.subrange(start, key_end));
        if key_end < s.len() && s[key_end] == 0x3d {
            let value_end = field_end(s, key_end + 1, false);
            match full_decode(s.subrange(key_end + 1, value_end)) {
                None => (None, value_end),
                Some(value) => {
                    let next = skip_amps(s, value_end);
                    match key {
                        Some(k) => (Some((k, Some(value))), next),
                        None => (None, next),
                    }
                },
            }
        } else {
            let next = skip_amps(s, key_end);
            match key {
                Some(k) => (Some((k, None)), next),
                None => (None, next),
            }
        }
    }
}

/// The first field of `s` that gives a pair, and the number of bytes read up
/// to and including it; fields of which a side does not decode are passed
/// over.
pub open spec fn next_pair(s: Seq<u8>) -> (Option<PairView>, int)
    decreases s.len(),
{
    let (pair, n) = parse_step(s);
    if s.len() == 0 {
        (None, 0)
    } else if pair is Some {
        (pair, n)
    } else if n <= 0 || n >= s.len() {
        (None, s.len() as int)
    } else {
        let (later, m) = next_pair(s.skip(n));
        (later, n + m)
    }
}

/// `skip_amps` and `field_end` stay within the input and do not go back.
pub proof fn lemma_scan_bounds(s: Seq<u8>, from: int, stop_eq: bool)
    requires
        0 <= from <= s.len(),
    ensures
        from <= skip_amps(s, from) <= s.len(),
        from <= field_end(s, from, stop_eq) <= s.len(),
    decreases s.len() - from,
{
    if from < s.len() {
        lemma_scan_bounds(s, from + 1, stop_eq);
    }
}

/// Parsing a field of a non-empty query string reads at least one byte, and
/// none past the end.
pub proof fn lemma_parse_step_progress(s: Seq<u8>)
    requires
        s.len() > 0,
    ensures
        0 < parse_step(s).1 <= s.len(),
{
    lemma_scan_bounds(s, 0, true);
    let start = skip_amps(s, 0);
    if start < s.len() {
        lemma_scan_bounds(s, start, true);
        let key_end = field_end(s, start, true);
        if key_end < s.len() && s[key_end] == 0x3d {
            lemma_scan_bounds(s, key_end + 1, false);
            lemma_scan_bounds(s, field_end(s, key_end + 1, false), false);
        } else {
            lemma_scan_bounds(s, key_end, true);
            if key_end == 0 {
                lemma_scan_bounds(s, 1, true);
                assert(start == 0);
                assert(s[0] == 0x26 || s[0] == 0x3d);
                assert(s[0] != 0x26);
            }
        }
    }
}

/// The bytes of all chunks, in one piece.
pub fn flatten(chunks: &Vec<Vec<u8>>) -> (out: Vec<u8>)
    ensures
        out@ == concat(views(chunks@)),
{
    let mut out: Vec<u8> = Vec::new();
    let mut k: usize = 0;
    proof {
        assert(views(chunks@).take(0) =~= Seq::<Seq<u8>>::empty());
    }
    while k < chunks.len()
        invariant
            k <= chunks@.len(),
            out@ == concat(views(chunks@).take(k as int)),
        decreases chunks@.len() - k,
    {
        append_bytes(&mut out, chunks[k].as_slice());
        proof {
            let done = views(chunks@).take(k + 1);
            assert(done.drop_last() =~= views(chunks@).take(k as int));
            assert(done.last() == chunks@[k as int]@);
        }
        k += 1;
    }
    proof {
        assert(views(chunks@).take(k as int) =~= views(chunks@));
    }
    out
}

/// Percent-decodes `raw` in one piece, where all of it decodes.
pub fn decode_all(raw: &[u8]) -> (out: Option<Vec<u8>>)
    ensures
        match out {
            Some(bytes) => full_decode(raw@) == Some(bytes@),
            None => full_decode(raw@) is None,
        },
{
    match urldecode(raw) {
        Ok(chunks) => Some(flatten(&chunks)),
        Err(_) => None,
    }
}

/// Passes over the `&` of `input` from `from` on.
fn skip_amps_from(input: &[u8], from: usize) -> (next: usize)
    requires
        from <= input@.len(),
    ensures
        next == skip_amps(input@, from as int),
        from <= next <= input@.len(),
{
    let mut i = from;
    while i < input.len() && input[i] == 0x26
        invariant
            from <= i <= input@.len(),
            skip_amps(input@, from as int) == skip_amps(input@, i as int),
        decreases input@.len() - i,
    {
        i += 1;
    }
    i
}

/// Finds the end of the field of `input` that starts at `from`.
fn field_end_from(input: &[u8], from: usize, stop_eq: bool) -> (end: usize)
    requires
        from <= input@.len(),
    ensures
        end == field_end(input@, from as int, stop_eq),
        from <= end <= input@.len(),
{
    let mut i = from;
    while i < input.len() && !(input[i] == 0x26 || (stop_eq && input[i] == 0x3d))
        invariant
            from <= i <= input@.len(),
            field_end(input@, from as int, stop_eq) == field_end(input@, i as int, stop_eq),
        decreases input@.len() - i,
    {
        i += 1;
    }
    i
}

/// Parses the first field of a query string. Returns the key with its value,
/// and the number of bytes read; the value is `None` where the field has no
/// `=`. No pair is returned where the input holds nothing but `&`, or where
/// the key or the value does not decode.
pub fn parse_query_string_iter_fn(input: &[u8]) -> (res: (
    Option<(Vec<u8>, Option<Vec<u8>>)>,
    usize,
))
    ensures
        opt_pair_view(res.0) == parse_step(input@).0,
        res.1 == parse_step(input@).1,
        res.1 <= input@.len(),
{
    let start = skip_amps_from(input, 0);
    if start >= input.len() {
        return (None, input.len());
    }
    let key_end = field_end_from(input, start, true);
    let key_raw = slice_subrange(input, start, key_end);
    if key_end < input.len() && input[key_end] == 0x3d {
        let value_end = field_end_from(input, key_end + 1, false);
        let value_raw = slice_subrange(input, key_end + 1, value_end);
        let value = match decode_all(value_raw) {
            Some(v) => v,
            None => {
                return (None, value_end);
            },
        };
        let next = skip_amps_from(input, value_end);
        match decode_all(key_raw) {
            Some(key) => (Some((key, Some(value))), next),
            None => (None, next),
        }
    } else {
        let next = skip_amps_from(input, key_end);
        match decode_all(key_raw) {
            Some(key) => (Some((key, None)), next),
            None => (None, next),
        }
    }
}

/// Walks the pairs of a query string.
pub struct QueryStringIterator {
    input: Vec<u8>,
    pos: usize,
}

impl QueryStringIterator {
    #[verifier::type_invariant]
    spec fn well_formed(self) -> bool {
        self.pos <= self.input@.len()
    }

    /// What is left of the query string.
    pub closed spec fn remaining(self) -> Seq<u8> {
        self.input@.skip(self.pos as int)
    }

    /// Starts at the beginning of `input`.
    pub fn new(input: Vec<u8>) -> (it: QueryStringIterator)
        ensures
            it.remaining() == input@,
    {
        proof {
            assert(input@.skip(0) =~= input@);
        }
        QueryStringIterator { input, pos: 0 }
    }

    /// Returns the next pair, passing over fields of which the key or the
    /// value does not decode; `None` at the end of the query string.
    pub fn next(&mut self) -> (res: Option<(Vec<u8>, Option<Vec<u8>>)>)
        ensures
            opt_pair_view(res) == next_pair(old(self).remaining()).0,
            final(self).remaining() == old(self).remaining().skip(
                next_pair(old(self).remaining()).1,
            ),
    {
        proof {
            use_type_invariant(&*self);
        }
        let ghost start = self.remaining();
        let ghost mut read: int = 0;
        proof {
            assert(start.skip(0) =~= start);
        }
        loop
            invariant
                self.pos <= self.input@.len(),
                self.input == old(self).input,
                0 <= read <= start.len(),
                start == old(self).remaining(),
                self.remaining() == start.skip(read),
                next_pair(start).0 == next_pair(start.skip(read)).0,
                next_pair(start).1 == read + next_pair(start.skip(read)).1,
            decreases self.input@.len() - self.pos,
        {
            if self.pos >= self.input.len() {
                proof {
                    assert(start.skip(read).len() == 0);
                    assert(start.skip(read).skip(0) =~= start.skip(read));
                }
                return None;
            }
            let rest = slice_subrange(self.input.as_slice(), self.pos, self.input.len());
            let (pair, n) = parse_query_string_iter_fn(rest);
            proof {
                assert(rest@ =~= self.remaining());
                lemma_parse_step_progress(rest@);
                assert(self.input@.skip(self.pos as int).skip(n as int) =~= self.input@.skip(
                    self.pos + n,
                ));
                assert(start.skip(read).skip(n as int) =~= start.skip(read + n));
                assert(self.input@.skip(self.pos + n) == start.skip(read + n));
                if pair is None && n >= rest@.len() {
                    assert(start.skip(read + n).len() == 0);
                }
            }
            self.pos = self.pos + n;
            proof {
                read = read + n;
            }
            if pair.is_some() {
                return pair;
            }
        }
    }
}

} // verus!
