//! Percent-encoding and -decoding of byte strings, chunk by chunk, and a
//! query-string parser on top of it.

use vstd::prelude::*;

verus! {

/// Whether `b` stands for itself in a URL: `A-Z a-z 0-9 - _ . ~`.
pub open spec fn is_safe(b: u8) -> bool {
    ||| 0x41 <= b <= 0x5a
    ||| 0x61 <= b <= 0x7a
    ||| 0x30 <= b <= 0x39
    ||| b == 0x2d
    ||| b == 0x5f
    ||| b == 0x2e
    ||| b == 0x7e
}

/// The upper-case hexadecimal digit for `v`, which is below 16.
pub open spec fn hex_digit(v: u8) -> u8 {
    if v < 10 {
        (0x30 + v) as u8
    } else {
        (0x41 + (v - 10)) as u8
    }
}

/// The value of the hexadecimal digit `c`, of either case.
pub open spec fn hex_value(c: u8) -> Option<u8> {
    if 0x30 <= c <= 0x39 {
        Some((c - 0x30) as u8)
    } else if 0x41 <= c <= 0x46 {
        Some((c - 0x41 + 10) as u8)
    } else if 0x61 <= c <= 0x66 {
        Some((c - 0x61 + 10) as u8)
    } else {
        None
    }
}

/// The triplet `%XX` that encodes `b`.
pub open spec fn triplet(b: u8) -> Seq<u8> {
    seq![0x25u8, hex_digit(b / 16), hex_digit(b % 16)]
}

/// The encoding of one byte: itself where it is safe, else its triplet.
pub open spec fn encode_byte(b: u8) -> Seq<u8> {
    if is_safe(b) {
        seq![b]
    } else {
        triplet(b)
    }
}

/// The percent-encoding of `s`.
pub open spec fn percent_encode(s: Seq<u8>) -> Seq<u8>
    decreases s.len(),
{
    if s.len() == 0 {
        Seq::empty()
    } else {
        percent_encode(s.drop_last()) + encode_byte(s.last())
    }
}

/// The triplets of all bytes of `s`, one after the other.
pub open spec fn triplets(s: Seq<u8>) -> Seq<u8>
    decreases s.len(),
{
    if s.len() == 0 {
        Seq::empty()
    } else {
        triplets(s.drop_last()) + triplet(s.last())
    }
}

/// The length of the longest prefix of `s` whose bytes all satisfy (`want`
/// true) or all fail (`want` false) `is_safe`, cut at `max` bytes.
pub open spec fn run_len(s: Seq<u8>, want: bool, max: int) -> int
    decreases s.len(),
{
    if s.len() == 0 || max <= 0 || is_safe(s[0]) != want {
        0
    } else {
        1 + run_len(s.skip(1), want, max - 1)
    }
}

/// The chunks of a queue as mathematical values.
pub open spec fn views(chunks: Seq<Vec<u8>>) -> Seq<Seq<u8>> {
    Seq::new(chunks.len(), |i: int| chunks[i]@)
}

/// The bytes of all chunks, one chunk after the other.
pub open spec fn concat(chunks: Seq<Seq<u8>>) -> Seq<u8>
    decreases chunks.len(),
{
    if chunks.len() == 0 {
        Seq::empty()
    } else {
        concat(chunks.drop_last()) + chunks.last()
    }
}

/// Concatenation of chunks distributes over joining two queues.
pub proof fn lemma_concat_add(a: Seq<Seq<u8>>, b: Seq<Seq<u8>>)
    ensures
        concat(a + b) == concat(a) + concat(b),
    decreases b.len(),
{
    if b.len() == 0 {
        assert(a + b =~= a);
    } else {
        lemma_concat_add(a, b.drop_last());
        assert((a + b).drop_last() =~= a + b.drop_last());
        assert((a + b).last() == b.last());
    }
}

/// The most input bytes that one encoded chunk of triplets covers.
pub const ENCODE_CHUNK: usize = 4;

/// The first chunk that encoding `input` yields, and the number of input
/// bytes that it covers.
pub open spec fn encode_step(input: Seq<u8>) -> (Seq<u8>, int) {
    if input.len() == 0 {
        (Seq::empty(), 0)
    } else if is_safe(input[0]) {
        let n = run_len(input, true, input.len() as int);
        (input.take(n), n)
    } else {
        let n = run_len(input, false, ENCODE_CHUNK as int);
        (triplets(input.take(n)), n)
    }
}

/// Percent-encoding distributes over concatenation.
pub proof fn lemma_encode_concat(a: Seq<u8>, b: Seq<u8>)
    ensures
        percent_encode(a + b) == percent_encode(a) + percent_encode(b),
    decreases b.len(),
{
    if b.len() == 0 {
        assert(a + b =~= a);
    } else {
        lemma_encode_concat(a, b.drop_last());
        assert((a + b).drop_last() =~= a + b.drop_last());
        assert((a + b).last() == b.last());
    }
}

/// A run of safe bytes encodes to itself; a run of unsafe bytes encodes to
/// its triplets.
pub proof fn lemma_encode_run(s: Seq<u8>, want: bool)
    requires
        forall|i: int| 0 <= i < s.len() ==> is_safe(#[trigger] s[i]) == want,
    ensures
        want ==> percent_encode(s) == s,
        !want ==> percent_encode(s) == triplets(s),
        triplets(s).len() == 3 * s.len(),
    decreases s.len(),
{
    if s.len() > 0 {
        lemma_encode_run(s.drop_last(), want);
        if want {
            assert(s.drop_last() + seq![s.last()] =~= s);
        }
    }
}

/// What `run_len` returns is a prefix length within the bound, all of whose
/// bytes are of the wanted kind, and which ends at the bound, at the end of
/// the input, or before a byte of the other kind.
pub proof fn lemma_run_len(s: Seq<u8>, want: bool, max: int)
    ensures
        0 <= run_len(s, want, max) <= s.len(),
        max >= 0 ==> run_len(s, want, max) <= max,
        forall|i: int| 0 <= i < run_len(s, want, max) ==> is_safe(#[trigger] s[i]) == want,
        run_len(s, want, max) < s.len() && run_len(s, want, max) < max ==> is_safe(
            s[run_len(s, want, max)],
        ) != want,
    decreases s.len(),
{
    if s.len() == 0 || max <= 0 || is_safe(s[0]) != want {
    } else {
        lemma_run_len(s.skip(1), want, max - 1);
        let n = run_len(s.skip(1), want, max - 1);
        assert forall|i: int| 0 <= i < 1 + n implies is_safe(#[trigger] s[i]) == want by {
            if i > 0 {
                assert(s.skip(1)[i - 1] == s[i]);
            }
        }
        if 1 + n < s.len() && 1 + n < max {
            assert(s.skip(1)[n] == s[1 + n]);
        }
    }
}

/// The chunks that encoding `input` yields, in order.
pub open spec fn encode_chunks(input: Seq<u8>) -> Seq<Seq<u8>>
    decreases input.len(),
{
    let (chunk, n) = encode_step(input);
    if input.len() == 0 || n <= 0 || n > input.len() {
        Seq::empty()
    } else {
        seq![chunk] + encode_chunks(input.skip(n))
    }
}

/// One step of encoding covers at least one byte of a non-empty input and
/// yields the encoding of the bytes it covers.
pub proof fn lemma_encode_step(input: Seq<u8>)
    requires
        input.len() > 0,
    ensures
        0 < encode_step(input).1 <= input.len(),
        encode_step(input).0 == percent_encode(input.take(encode_step(input).1)),
        encode_step(input).0.len() > 0,
{
    let want = is_safe(input[0]);
    let max = if want {
        input.len() as int
    } else {
        ENCODE_CHUNK as int
    };
    lemma_run_len(input, want, max);
    let n = run_len(input, want, max);
    assert(input.skip(1).len() == input.len() - 1);
    lemma_run_len(input.skip(1), want, max - 1);
    assert(n >= 1);
    lemma_encode_run(input.take(n), want);
}

/// The chunks of an encoding, taken together, are the percent-encoding.
pub proof fn lemma_encode_chunks(input: Seq<u8>)
    ensures
        concat(encode_chunks(input)) == percent_encode(input),
    decreases input.len(),
{
    if input.len() > 0 {
        lemma_encode_step(input);
        let (chunk, n) = encode_step(input);
        lemma_encode_chunks(input.skip(n));
        lemma_concat_add(seq![chunk], encode_chunks(input.skip(n)));
        assert(concat(seq![chunk]) =~= chunk) by {
            assert(seq![chunk].drop_last() =~= Seq::<Seq<u8>>::empty());
            assert(concat(Seq::<Seq<u8>>::empty()) =~= Seq::<u8>::empty());
            assert(seq![chunk].last() == chunk);
        }
        lemma_encode_concat(input.take(n), input.skip(n));
        assert(input.take(n) + input.skip(n) =~= input);
    }
}

/// Tests whether a byte stands for itself in a URL.
pub fn is_safe_byte(b: u8) -> (r: bool)
    ensures
        r == is_safe(b),
{
    (0x41 <= b && b <= 0x5a) || (0x61 <= b && b <= 0x7a) || (0x30 <= b && b <= 0x39) || b == 0x2d
        || b == 0x5f || b == 0x2e || b == 0x7e
}

/// The upper-case hexadecimal digit for a value below 16.
fn hex_digit_of(v: u8) -> (c: u8)
    requires
        v < 16,
    ensures
        c == hex_digit(v),
{
    if v < 10 {
        0x30 + v
    } else {
        0x41 + (v - 10)
    }
}

/// Encodes the first part of `input`. Returns one chunk and the number of
/// input bytes that it covers: either the longest run of safe bytes, as they
/// are, or the triplets of up to four unsafe bytes. An empty input gives an
/// empty chunk.
pub fn urlencode_iter_fn(input: &[u8]) -> (res: (Vec<u8>, usize))
    ensures
        res.0@ == encode_step(input@).0,
        res.1 == encode_step(input@).1,
{
    let mut chunk: Vec<u8> = Vec::new();
    if input.len() == 0 {
        return (chunk, 0);
    }
    let want = is_safe_byte(input[0]);
    let max: usize = if want {
        input.len()
    } else {
        ENCODE_CHUNK
    };
    let mut i: usize = 0;
    proof {
        assert(input@.skip(0) =~= input@);
        assert(input@.take(0) =~= Seq::<u8>::empty());
    }
    while i < input.len() && i < max && is_safe_byte(input[i]) == want
        invariant
            i <= input@.len(),
            i <= max,
            run_len(input@, want, max as int) == i + run_len(input@.skip(i as int), want, max - i),
            want ==> chunk@ == input@.take(i as int),
            !want ==> chunk@ == triplets(input@.take(i as int)),
        decreases input@.len() - i,
    {
        let b = input[i];
        proof {
            assert(input@.skip(i as int)[0] == b);
            assert(input@.skip(i as int).skip(1) =~= input@.skip(i + 1));
            assert(input@.take(i + 1).drop_last() =~= input@.take(i as int));
            assert(input@.take(i + 1).last() == b);
        }
        if want {
            chunk.push(b);
            proof {
                assert(chunk@ =~= input@.take(i + 1));
            }
        } else {
            chunk.push(0x25);
            chunk.push(hex_digit_of(b / 16));
            chunk.push(hex_digit_of(b % 16));
            proof {
                assert(chunk@ =~= triplets(input@.take(i as int)) + triplet(b));
            }
        }
        i += 1;
    }
    proof {
        if i < input@.len() {
            assert(input@.skip(i as int)[0] == input@[i as int]);
        }
        assert(input@.take(0) =~= Seq::<u8>::empty());
    }
    (chunk, i)
}

/// Percent-encodes `input` and appends the chunks to `builder`.
pub fn urlencode_into(input: &[u8], builder: &mut Vec<Vec<u8>>)
    ensures
        views(final(builder)@) == views(old(builder)@) + encode_chunks(input@),
        concat(views(final(builder)@)) == concat(views(old(builder)@)) + percent_encode(input@),
{
    let mut pos: usize = 0;
    proof {
        assert(input@.skip(0) =~= input@);
    }
    while pos < input.len()
        invariant
            pos <= input@.len(),
            views(old(builder)@) + encode_chunks(input@) == views(builder@) + encode_chunks(
                input@.skip(pos as int),
            ),
        decreases input@.len() - pos,
    {
        let rest = vstd::slice::slice_subrange(input, pos, input.len());
        let (chunk, n) = urlencode_iter_fn(rest);
        proof {
            assert(rest@ =~= input@.skip(pos as int));
            lemma_encode_step(rest@);
            assert(rest@.skip(n as int) =~= input@.skip(pos + n));
        }
        let ghost before = builder@;
        builder.push(chunk);
        proof {
            assert(views(builder@) =~= views(before) + seq![chunk@]);
            assert(views(builder@) + encode_chunks(input@.skip(pos + n)) =~= views(before) + (
            seq![chunk@] + encode_chunks(input@.skip(pos + n))));
        }
        pos += n;
    }
    proof {
        assert(views(old(builder)@) + encode_chunks(input@) =~= views(builder@));
        lemma_encode_chunks(input@);
        lemma_concat_add(views(old(builder)@), encode_chunks(input@));
    }
}

/// Percent-encodes `input` into a fresh queue of chunks.
pub fn urlencode(input: &[u8]) -> (chunks: Vec<Vec<u8>>)
    ensures
        views(chunks@) == encode_chunks(input@),
        concat(views(chunks@)) == percent_encode(input@),
{
    let mut builder: Vec<Vec<u8>> = Vec::new();
    urlencode_into(input, &mut builder);
    proof {
        assert(views(Seq::<Vec<u8>>::empty()) =~= Seq::<Seq<u8>>::empty());
        assert(views(builder@) =~= encode_chunks(input@));
        assert(concat(views(builder@)) =~= percent_encode(input@));
    }
    builder
}

/// The chunks that encoding each chunk of `input` in turn yields.
pub open spec fn encode_queue_chunks(input: Seq<Seq<u8>>) -> Seq<Seq<u8>>
    decreases input.len(),
{
    if input.len() == 0 {
        Seq::empty()
    } else {
        encode_queue_chunks(input.drop_last()) + encode_chunks(input.last())
    }
}

/// The chunks of a queue's encoding, taken together, are the percent-encoding
/// of the queue's bytes.
pub proof fn lemma_encode_queue_chunks(input: Seq<Seq<u8>>)
    ensures
        concat(encode_queue_chunks(input)) == percent_encode(concat(input)),
    decreases input.len(),
{
    if input.len() > 0 {
        lemma_encode_queue_chunks(input.drop_last());
        lemma_concat_add(encode_queue_chunks(input.drop_last()), encode_chunks(input.last()));
        lemma_encode_chunks(input.last());
        lemma_encode_concat(concat(input.drop_last()), input.last());
    }
}

/// Percent-encodes the bytes of a queue of chunks, chunk by chunk, and
/// appends the result to `builder`.
pub fn urlencode_queue_into(input: &Vec<Vec<u8>>, builder: &mut Vec<Vec<u8>>)
    ensures
        views(final(builder)@) == views(old(builder)@) + encode_queue_chunks(views(input@)),
        concat(views(final(builder)@)) == concat(views(old(builder)@)) + percent_encode(
            concat(views(input@)),
        ),
{
    let mut k: usize = 0;
    proof {
        assert(views(input@).take(0) =~= Seq::<Seq<u8>>::empty());
        assert(views(builder@) + Seq::<Seq<u8>>::empty() =~= views(builder@));
    }
    while k < input.len()
        invariant
            k <= input@.len(),
            views(builder@) == views(old(builder)@) + encode_queue_chunks(
                views(input@).take(k as int),
            ),
        decreases input@.len() - k,
    {
        urlencode_into(input[k].as_slice(), builder);
        proof {
            let done = views(input@).take(k + 1);
            assert(done.drop_last() =~= views(input@).take(k as int));
            assert(done.last() == input@[k as int]@);
            assert(views(builder@) =~= views(old(builder)@) + encode_queue_chunks(done));
        }
        k += 1;
    }
    proof {
        assert(views(input@).take(k as int) =~= views(input@));
        lemma_encode_queue_chunks(views(input@));
        lemma_concat_add(views(old(builder)@), encode_queue_chunks(views(input@)));
    }
}

/// Percent-encodes the bytes of a queue of chunks into a fresh queue.
pub fn urlencode_queue(input: &Vec<Vec<u8>>) -> (chunks: Vec<Vec<u8>>)
    ensures
        views(chunks@) == encode_queue_chunks(views(input@)),
        concat(views(chunks@)) == percent_encode(concat(views(input@))),
{
    let mut builder: Vec<Vec<u8>> = Vec::new();
    urlencode_queue_into(input, &mut builder);
    proof {
        assert(views(Seq::<Vec<u8>>::empty()) =~= Seq::<Seq<u8>>::empty());
        assert(views(builder@) =~= encode_queue_chunks(views(input@)));
        assert(concat(views(builder@)) =~= percent_encode(concat(views(input@))));
    }
    builder
}

} // verus!
