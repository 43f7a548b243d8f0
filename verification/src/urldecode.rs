//! Percent-decoding of byte strings, chunk by chunk.

use crate::urlencode::{
    concat, encode_byte, hex_digit, hex_value, is_safe, lemma_concat_add, percent_encode, views,
};
use vstd::prelude::*;
use vstd::slice::{slice_subrange, slice_to_vec};

verus! {

/// The byte that a well-formed triplet `%XX` at the start of `s` stands for.
pub open spec fn triplet_value(s: Seq<u8>) -> Option<u8> {
    if s.len() >= 3 && s[0] == 0x25 {
        match (hex_value(s[1]), hex_value(s[2])) {
            (Some(hi), Some(lo)) => Some((hi * 16 + lo) as u8),
            _ => None,
        }
    } else {
        None
    }
}

/// The decoding of `s`: the decoded bytes, and the number of bytes of `s`
/// that were decoded. Decoding stops before the first `%` that two hex digits
/// do not follow; it reaches the end of `s` exactly when there is none.
pub open spec fn percent_decode(s: Seq<u8>) -> (Seq<u8>, int)
    decreases s.len(),
{
    if s.len() == 0 {
        (Seq::empty(), 0)
    } else if s[0] != 0x25 {
        let rest = percent_decode(s.skip(1));
        (seq![s[0]] + rest.0, 1 + rest.1)
    } else {
        match triplet_value(s) {
            Some(b) => {
                let rest = percent_decode(s.skip(3));
                (seq![b] + rest.0, 3 + rest.1)
            },
            None => (Seq::empty(), 0),
        }
    }
}

/// The most bytes that one decoded chunk of triplets holds.
pub const DECODE_CHUNK: usize = 14;

/// The length of the longest prefix of `s` without `%`.
pub open spec fn plain_len(s: Seq<u8>) -> int
    decreases s.len(),
{
    if s.len() == 0 || s[0] == 0x25 {
        0
    } else {
        1 + plain_len(s.skip(1))
    }
}

/// The bytes that the well-formed triplets at the start of `s` stand for, at
/// most `max` of them.
pub open spec fn triplet_run(s: Seq<u8>, max: int) -> Seq<u8>
    decreases s.len(),
{
    if max <= 0 {
        Seq::empty()
    } else {
        match triplet_value(s) {
            Some(b) => seq![b] + triplet_run(s.skip(3), max - 1),
            None => Seq::empty(),
        }
    }
}

/// The first chunk that decoding `input` yields, and the number of input
/// bytes that it covers. Both are empty and zero where the input is empty, or
/// starts with a `%` that two hex digits do not follow.
pub open spec fn decode_step(input: Seq<u8>) -> (Seq<u8>, int) {
    if input.len() == 0 {
        (Seq::empty(), 0)
    } else if input[0] != 0x25 {
        let n = plain_len(input);
        (input.take(n), n)
    } else {
        let chunk = triplet_run(input, DECODE_CHUNK as int);
        (chunk, 3 * (chunk.len() as int))
    }
}

/// The chunks that decoding `input` yields, up to where decoding stops.
pub open spec fn decode_chunks(input: Seq<u8>) -> Seq<Seq<u8>>
    decreases input.len(),
{
    let (chunk, n) = decode_step(input);
    if input.len() == 0 || n <= 0 || n > input.len() {
        Seq::empty()
    } else {
        seq![chunk] + decode_chunks(input.skip(n))
    }
}

/// Where a prefix decodes to its end, decoding goes on into what follows it.
pub proof fn lemma_decode_concat(a: Seq<u8>, b: Seq<u8>)
    requires
        percent_decode(a).1 == a.len(),
    ensures
        percent_decode(a + b).0 == percent_decode(a).0 + percent_decode(b).0,
        percent_decode(a + b).1 == a.len() + percent_decode(b).1,
    decreases a.len(),
{
    if a.len() == 0 {
        assert(a + b =~= b);
        assert(percent_decode(a).0 + percent_decode(b).0 =~= percent_decode(b).0);
    } else if a[0] != 0x25 {
        lemma_decode_bounds(a.skip(1));
        lemma_decode_concat(a.skip(1), b);
        assert((a + b).skip(1) =~= a.skip(1) + b);
        assert(percent_decode(a + b).0 =~= percent_decode(a).0 + percent_decode(b).0);
    } else {
        assert(triplet_value(a) is Some);
        assert(triplet_value(a + b) == triplet_value(a));
        lemma_decode_bounds(a.skip(3));
        lemma_decode_concat(a.skip(3), b);
        assert((a + b).skip(3) =~= a.skip(3) + b);
        assert(percent_decode(a + b).0 =~= percent_decode(a).0 + percent_decode(b).0);
    }
}

/// Decoding never reads past the end of its input.
pub proof fn lemma_decode_bounds(s: Seq<u8>)
    ensures
        0 <= percent_decode(s).1 <= s.len(),
    decreases s.len(),
{
    if s.len() == 0 {
    } else if s[0] != 0x25 {
        lemma_decode_bounds(s.skip(1));
    } else if triplet_value(s) is Some {
        lemma_decode_bounds(s.skip(3));
    }
}

/// The prefix without `%` decodes to itself.
pub proof fn lemma_plain_len(s: Seq<u8>)
    ensures
        0 <= plain_len(s) <= s.len(),
        forall|i: int| 0 <= i < plain_len(s) ==> #[trigger] s[i] != 0x25,
        plain_len(s) < s.len() ==> s[plain_len(s)] == 0x25,
        percent_decode(s.take(plain_len(s))) == (s.take(plain_len(s)), plain_len(s)),
    decreases s.len(),
{
    if s.len() == 0 || s[0] == 0x25 {
        assert(s.take(0) =~= Seq::<u8>::empty());
    } else {
        let t = s.skip(1);
        lemma_plain_len(t);
        let n = plain_len(t);
        assert forall|i: int| 0 <= i < 1 + n implies #[trigger] s[i] != 0x25 by {
            if i > 0 {
                assert(t[i - 1] == s[i]);
            }
        }
        if 1 + n < s.len() {
            assert(t[n] == s[1 + n]);
        }
        assert(s.take(1 + n).skip(1) =~= t.take(n));
        assert(seq![s[0]] + t.take(n) =~= s.take(1 + n));
    }
}

/// The triplets at the start of `s` decode to the bytes they stand for.
pub proof fn lemma_triplet_run(s: Seq<u8>, max: int)
    ensures
        triplet_run(s, max).len() <= max || max < 0,
        3 * triplet_run(s, max).len() <= s.len(),
        percent_decode(s.take(3 * (triplet_run(s, max).len() as int))) == (
            triplet_run(s, max),
            3 * (triplet_run(s, max).len() as int),
        ),
    decreases s.len(),
{
    if max > 0 && triplet_value(s) is Some {
        let t = s.skip(3);
        lemma_triplet_run(t, max - 1);
        let k = triplet_run(t, max - 1).len() as int;
        let p = s.take(3 * (k + 1));
        assert(triplet_value(p) == triplet_value(s));
        assert(p.skip(3) =~= t.take(3 * k));
    } else {
        assert(s.take(0) =~= Seq::<u8>::empty());
    }
}

/// One step of decoding covers a prefix of the input that decodes, to its
/// end, to the chunk; it covers nothing exactly when decoding cannot start.
pub proof fn lemma_decode_step(input: Seq<u8>)
    ensures
        0 <= decode_step(input).1 <= input.len(),
        percent_decode(input.take(decode_step(input).1)) == decode_step(input),
        decode_step(input).1 == 0 <==> percent_decode(input).1 == 0,
        decode_step(input).1 == 0 <==> decode_step(input).0.len() == 0,
        decode_step(input).1 == 0 ==> percent_decode(input).0 == Seq::<u8>::empty(),
{
    if input.len() == 0 {
        assert(input.take(0) =~= input);
    } else if input[0] != 0x25 {
        lemma_plain_len(input);
        lemma_decode_bounds(input.skip(1));
        assert(plain_len(input) >= 1);
    } else {
        lemma_triplet_run(input, DECODE_CHUNK as int);
        if triplet_value(input) is Some {
            lemma_decode_bounds(input.skip(3));
        }
    }
}

/// The chunks of a decoding, taken together, are the decoded bytes.
pub proof fn lemma_decode_chunks(input: Seq<u8>)
    ensures
        concat(decode_chunks(input)) == percent_decode(input).0,
    decreases input.len(),
{
    let (chunk, n) = decode_step(input);
    lemma_decode_step(input);
    if input.len() == 0 || n <= 0 {
        assert(concat(Seq::<Seq<u8>>::empty()) =~= Seq::<u8>::empty());
    } else {
        lemma_decode_chunks(input.skip(n));
        lemma_concat_add(seq![chunk], decode_chunks(input.skip(n)));
        assert(concat(seq![chunk]) =~= chunk) by {
            assert(seq![chunk].drop_last() =~= Seq::<Seq<u8>>::empty());
            assert(concat(Seq::<Seq<u8>>::empty()) =~= Seq::<u8>::empty());
            assert(seq![chunk].last() == chunk);
        }
        lemma_decode_concat(input.take(n), input.skip(n));
        assert(input.take(n) + input.skip(n) =~= input);
    }
}

/// Decoding a percent-encoding gives back the bytes that were encoded, and
/// reads the encoding to its end.
pub proof fn lemma_decode_encode(b: Seq<u8>)
    ensures
        percent_decode(percent_encode(b)) == (b, percent_encode(b).len() as int),
    decreases b.len(),
{
    if b.len() > 0 {
        let x = b.last();
        let e = encode_byte(x);
        lemma_decode_encode(b.drop_last());
        lemma_decode_concat(percent_encode(b.drop_last()), e);
        assert(percent_decode(e).0 == seq![x] && percent_decode(e).1 == e.len()) by {
            let none = Seq::<u8>::empty();
            assert(percent_decode(none).0 == none && percent_decode(none).1 == 0);
            if is_safe(x) {
                assert(e[0] == x && x != 0x25);
                assert(e.skip(1) =~= none);
                assert(seq![x] + none =~= seq![x]);
            } else {
                let hi = (x / 16) as u8;
                let lo = (x % 16) as u8;
                assert(e[0] == 0x25 && e[1] == hex_digit(hi) && e[2] == hex_digit(lo));
                assert(hex_value(hex_digit(hi)) == Some(hi));
                assert(hex_value(hex_digit(lo)) == Some(lo));
                assert(hi * 16 + lo == x);
                assert(triplet_value(e) == Some(x));
                assert(e.skip(3) =~= none);
                assert(seq![x] + none =~= seq![x]);
            }
        }
        assert(b.drop_last() + seq![x] =~= b);
        assert(percent_decode(percent_encode(b)).0 =~= b);
    }
}

/// The value of a hexadecimal digit of either case.
fn hex_value_of(c: u8) -> (v: Option<u8>)
    ensures
        v == hex_value(c),
        v matches Some(x) ==> x < 16,
{
    if 0x30 <= c && c <= 0x39 {
        Some(c - 0x30)
    } else if 0x41 <= c && c <= 0x46 {
        Some(c - 0x41 + 10)
    } else if 0x61 <= c && c <= 0x66 {
        Some(c - 0x61 + 10)
    } else {
        None
    }
}

/// The byte that a well-formed triplet at index `at` of `input` stands for.
fn triplet_at(input: &[u8], at: usize) -> (v: Option<u8>)
    requires
        at <= input@.len(),
    ensures
        v == triplet_value(input@.skip(at as int)),
{
    if input.len() - at < 3 || input[at] != 0x25 {
        return None;
    }
    proof {
        let s = input@.skip(at as int);
        assert(s[0] == input@[at as int] && s[1] == input@[at + 1] && s[2] == input@[at + 2]);
    }
    match (hex_value_of(input[at + 1]), hex_value_of(input[at + 2])) {
        (Some(hi), Some(lo)) => Some(hi * 16 + lo),
        _ => None,
    }
}

/// Decodes the first part of `input`. Returns one chunk and the number of
/// input bytes that it covers: either the longest run of bytes other than
/// `%`, as they are, or the bytes of up to fourteen well-formed triplets. The
/// chunk is empty, and covers nothing, where the input is empty or starts
/// with a `%` that two hex digits do not follow.
pub fn urldecode_iter_fn(input: &[u8]) -> (res: (Vec<u8>, usize))
    ensures
        res.0@ == decode_step(input@).0,
        res.1 == decode_step(input@).1,
{
    let mut chunk: Vec<u8> = Vec::new();
    if input.len() == 0 {
        return (chunk, 0);
    }
    let mut i: usize = 0;
    proof {
        assert(input@.skip(0) =~= input@);
        assert(input@.take(0) =~= Seq::<u8>::empty());
    }
    if input[0] != 0x25 {
        while i < input.len() && input[i] != 0x25
            invariant
                i <= input@.len(),
                plain_len(input@) == i + plain_len(input@.skip(i as int)),
                chunk@ == input@.take(i as int),
            decreases input@.len() - i,
        {
            proof {
                assert(input@.skip(i as int)[0] == input@[i as int]);
                assert(input@.skip(i as int).skip(1) =~= input@.skip(i + 1));
            }
            chunk.push(input[i]);
            proof {
                assert(chunk@ =~= input@.take(i + 1));
            }
            i += 1;
        }
        proof {
            if i < input@.len() {
                assert(input@.skip(i as int)[0] == input@[i as int]);
            }
        }
        return (chunk, i);
    }
    while chunk.len() < DECODE_CHUNK
        invariant
            input@.len() > 0,
            input@[0] == 0x25,
            i <= input@.len(),
            i == 3 * chunk@.len(),
            chunk@.len() <= DECODE_CHUNK,
            triplet_run(input@, DECODE_CHUNK as int) == chunk@ + triplet_run(
                input@.skip(i as int),
                DECODE_CHUNK - chunk@.len(),
            ),
        decreases DECODE_CHUNK - chunk@.len(),
    {
        match triplet_at(input, i) {
            Some(b) => {
                let ghost before = chunk@;
                chunk.push(b);
                proof {
                    assert(input@.skip(i as int).skip(3) =~= input@.skip(i + 3));
                    assert(before + (seq![b] + triplet_run(
                        input@.skip(i + 3),
                        DECODE_CHUNK - before.len() - 1,
                    )) =~= chunk@ + triplet_run(input@.skip(i + 3), DECODE_CHUNK - chunk@.len()));
                }
                i += 3;
            },
            None => {
                proof {
                    assert(chunk@ + Seq::<u8>::empty() =~= chunk@);
                }
                return (chunk, i);
            },
        }
    }
    proof {
        assert(chunk@ + Seq::<u8>::empty() =~= chunk@);
    }
    (chunk, i)
}

/// The number of bytes of `input` that decoding covers, chunk by chunk.
pub open spec fn decode_stop(input: Seq<u8>) -> int
    decreases input.len(),
{
    let n = decode_step(input).1;
    if input.len() == 0 || n <= 0 || n > input.len() {
        0
    } else {
        n + decode_stop(input.skip(n))
    }
}

/// Decoding chunk by chunk stops where decoding stops.
pub proof fn lemma_decode_stop(input: Seq<u8>)
    ensures
        decode_stop(input) == percent_decode(input).1,
    decreases input.len(),
{
    let n = decode_step(input).1;
    lemma_decode_step(input);
    if input.len() > 0 && n > 0 {
        lemma_decode_stop(input.skip(n));
        lemma_decode_concat(input.take(n), input.skip(n));
        assert(input.take(n) + input.skip(n) =~= input);
    }
}

/// Percent-decodes `input` and appends the chunks to `builder`. Where a `%`
/// is not followed by two hex digits, decoding stops there, and the input
/// from that `%` on is returned as the error.
pub fn urldecode_into(input: &[u8], builder: &mut Vec<Vec<u8>>) -> (res: Result<(), Vec<u8>>)
    ensures
        views(final(builder)@) == views(old(builder)@) + decode_chunks(input@),
        concat(views(final(builder)@)) == concat(views(old(builder)@)) + percent_decode(input@).0,
        match res {
            Ok(_) => percent_decode(input@).1 == input@.len(),
            Err(rest) => percent_decode(input@).1 < input@.len() && rest@ == input@.skip(
                percent_decode(input@).1,
            ),
        },
{
    let mut pos: usize = 0;
    proof {
        assert(input@.skip(0) =~= input@);
    }
    while pos < input.len()
        invariant
            pos <= input@.len(),
            views(old(builder)@) + decode_chunks(input@) == views(builder@) + decode_chunks(
                input@.skip(pos as int),
            ),
            decode_stop(input@) == pos + decode_stop(input@.skip(pos as int)),
        decreases input@.len() - pos,
    {
        let rest = slice_subrange(input, pos, input.len());
        let (chunk, n) = urldecode_iter_fn(rest);
        proof {
            assert(rest@ =~= input@.skip(pos as int));
            lemma_decode_step(rest@);
            assert(rest@.skip(n as int) =~= input@.skip(pos + n));
        }
        if chunk.len() == 0 {
            proof {
                assert(views(builder@) + Seq::<Seq<u8>>::empty() =~= views(builder@));
                lemma_decode_stop(input@);
                lemma_decode_chunks(input@);
                lemma_concat_add(views(old(builder)@), decode_chunks(input@));
            }
            return Err(slice_to_vec(rest));
        }
        let ghost before = builder@;
        builder.push(chunk);
        proof {
            assert(views(builder@) =~= views(before) + seq![chunk@]);
            assert(views(builder@) + decode_chunks(input@.skip(pos + n)) =~= views(before) + (
            seq![chunk@] + decode_chunks(input@.skip(pos + n))));
        }
        pos += n;
    }
    proof {
        assert(views(builder@) + Seq::<Seq<u8>>::empty() =~= views(builder@));
        lemma_decode_stop(input@);
        lemma_decode_chunks(input@);
        lemma_concat_add(views(old(builder)@), decode_chunks(input@));
    }
    Ok(())
}

/// Percent-decodes `input` into a fresh queue of chunks. Where a `%` is not
/// followed by two hex digits, the error holds the chunks decoded so far and
/// the input from that `%` on.
pub fn urldecode(input: &[u8]) -> (res: Result<Vec<Vec<u8>>, (Vec<Vec<u8>>, Vec<u8>)>)
    ensures
        match res {
            Ok(chunks) => {
                &&& percent_decode(input@).1 == input@.len()
                &&& views(chunks@) == decode_chunks(input@)
                &&& concat(views(chunks@)) == percent_decode(input@).0
            },
            Err((chunks, rest)) => {
                &&& percent_decode(input@).1 < input@.len()
                &&& views(chunks@) == decode_chunks(input@)
                &&& concat(views(chunks@)) == percent_decode(input@).0
                &&& rest@ == input@.skip(percent_decode(input@).1)
            },
        },
{
    let mut builder: Vec<Vec<u8>> = Vec::new();
    let res = urldecode_into(input, &mut builder);
    proof {
        assert(views(Seq::<Vec<u8>>::empty()) =~= Seq::<Seq<u8>>::empty());
        assert(views(builder@) =~= decode_chunks(input@));
        assert(concat(views(builder@)) =~= percent_decode(input@).0);
    }
    match res {
        Ok(_) => Ok(builder),
        Err(rest) => Err((builder, rest)),
    }
}

/// The index of the first chunk of `input`, from `from` on, that does not
/// decode to its end; the length of `input` where there is none.
pub open spec fn queue_stop(input: Seq<Seq<u8>>, from: int) -> int
    decreases input.len() - from,
{
    if from < 0 || from >= input.len() {
        input.len() as int
    } else if percent_decode(input[from]).1 < input[from].len() {
        from
    } else {
        queue_stop(input, from + 1)
    }
}

/// The chunks that decoding each of the first `upto` chunks of `input` in
/// turn yields.
pub open spec fn decode_queue_chunks(input: Seq<Seq<u8>>, upto: int) -> Seq<Seq<u8>>
    decreases upto,
{
    if upto <= 0 {
        Seq::empty()
    } else {
        decode_queue_chunks(input, upto - 1) + decode_chunks(input[upto - 1])
    }
}

/// Percent-decodes a queue of chunks, chunk by chunk, and appends the result
/// to `builder`. A triplet does not reach across two chunks. Where a chunk
/// does not decode to its end, decoding stops there, and the error holds what
/// is left: the rest of that chunk, then the chunks after it.
pub fn urldecode_queue_into(input: &Vec<Vec<u8>>, builder: &mut Vec<Vec<u8>>) -> (res: Result<
    (),
    Vec<Vec<u8>>,
>)
    ensures
        ({
            let chunks = views(input@);
            let k = queue_stop(chunks, 0);
            match res {
                Ok(_) => {
                    &&& k == chunks.len()
                    &&& views(final(builder)@) == views(old(builder)@) + decode_queue_chunks(
                        chunks,
                        k,
                    )
                },
                Err(rest) => {
                    &&& 0 <= k < chunks.len()
                    &&& views(final(builder)@) == views(old(builder)@) + decode_queue_chunks(
                        chunks,
                        k + 1,
                    )
                    &&& views(rest@) == seq![chunks[k].skip(percent_decode(chunks[k]).1)]
                        + chunks.skip(k + 1)
                },
            }
        }),
{
    let mut k: usize = 0;
    proof {
        assert(views(builder@) + Seq::<Seq<u8>>::empty() =~= views(builder@));
    }
    while k < input.len()
        invariant
            k <= input@.len(),
            queue_stop(views(input@), 0) == queue_stop(views(input@), k as int),
            views(builder@) == views(old(builder)@) + decode_queue_chunks(views(input@), k as int),
        decreases input@.len() - k,
    {
        let res = urldecode_into(input[k].as_slice(), builder);
        proof {
            assert(views(input@)[k as int] == input@[k as int]@);
            assert(views(builder@) =~= views(old(builder)@) + decode_queue_chunks(
                views(input@),
                k + 1,
            ));
        }
        match res {
            Ok(_) => {},
            Err(first) => {
                let mut rest: Vec<Vec<u8>> = Vec::new();
                let ghost head = first@;
                rest.push(first);
                let mut j: usize = k + 1;
                proof {
                    assert(views(rest@) =~= seq![head] + views(input@).subrange(k + 1, j as int));
                }
                while j < input.len()
                    invariant
                        k < j <= input@.len(),
                        views(rest@) == seq![head] + views(input@).subrange(k + 1, j as int),
                    decreases input@.len() - j,
                {
                    let copy = slice_to_vec(input[j].as_slice());
                    let ghost before = rest@;
                    rest.push(copy);
                    proof {
                        assert(copy@ == views(input@)[j as int]);
                        assert(views(rest@) =~= views(before) + seq![copy@]);
                        assert(views(input@).subrange(k + 1, j + 1) =~= views(input@).subrange(
                            k + 1,
                            j as int,
                        ) + seq![copy@]);
                        assert(views(rest@) =~= seq![head] + views(input@).subrange(
                            k + 1,
                            j + 1,
                        ));
                    }
                    j += 1;
                }
                proof {
                    assert(views(input@).subrange(k + 1, j as int) =~= views(input@).skip(k + 1));
                }
                return Err(rest);
            },
        }
        k += 1;
    }
    Ok(())
}

/// Percent-decodes a queue of chunks into a fresh queue. The error holds the
/// chunks decoded so far and what is left of the input.
pub fn urldecode_queue(input: &Vec<Vec<u8>>) -> (res: Result<
    Vec<Vec<u8>>,
    (Vec<Vec<u8>>, Vec<Vec<u8>>),
>)
    ensures
        ({
            let chunks = views(input@);
            let k = queue_stop(chunks, 0);
            match res {
                Ok(out) => {
                    &&& k == chunks.len()
                    &&& views(out@) == decode_queue_chunks(chunks, k)
                },
                Err((out, rest)) => {
                    &&& 0 <= k < chunks.len()
                    &&& views(out@) == decode_queue_chunks(chunks, k + 1)
                    &&& views(rest@) == seq![chunks[k].skip(percent_decode(chunks[k]).1)]
                        + chunks.skip(k + 1)
                },
            }
        }),
{
    let mut builder: Vec<Vec<u8>> = Vec::new();
    let res = urldecode_queue_into(input, &mut builder);
    proof {
        let chunks = views(input@);
        let k = queue_stop(chunks, 0);
        assert(views(Seq::<Vec<u8>>::empty()) =~= Seq::<Seq<u8>>::empty());
        assert(Seq::<Seq<u8>>::empty() + decode_queue_chunks(chunks, k) =~= decode_queue_chunks(
            chunks,
            k,
        ));
        assert(Seq::<Seq<u8>>::empty() + decode_queue_chunks(chunks, k + 1)
            =~= decode_queue_chunks(chunks, k + 1));
    }
    match res {
        Ok(_) => Ok(builder),
        Err(rest) => Err((builder, rest)),
    }
}

} // verus!
