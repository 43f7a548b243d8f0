//! Small verified helpers on byte strings and UTF-8 text.

use vstd::prelude::*;
use vstd::utf8::*;

verus! {

/// Whether `needle` occurs in `hay` starting exactly at index `at`.
pub open spec fn occurs_at(hay: Seq<u8>, at: int, needle: Seq<u8>) -> bool {
    &&& 0 <= at
    &&& at + needle.len() <= hay.len()
    &&& hay.subrange(at, at + needle.len()) == needle
}

/// Tests whether `needle` occurs in `hay` at index `at`; an occurrence that
/// would run past the end of `hay` is no occurrence.
pub fn matches_at(hay: &[u8], at: usize, needle: &[u8]) -> (r: bool)
    ensures
        r == occurs_at(hay@, at as int, needle@),
{
    let n = needle.len();
    if at > hay.len() || n > hay.len() - at {
        return false;
    }
    let mut i: usize = 0;
    while i < n
        invariant
            n == needle@.len(),
            at + n <= hay@.len(),
            at + n <= usize::MAX,
            i <= n,
            forall|k: int| 0 <= k < i ==> hay@[at + k] == needle@[k],
        decreases n - i,
    {
        if hay[at + i] != needle[i] {
            proof {
                assert(hay@.subrange(at as int, at + n)[i as int] == hay@[at + i]);
            }
            return false;
        }
        i += 1;
    }
    proof {
        assert(hay@.subrange(at as int, at + n) =~= needle@);
    }
    true
}

/// Tests two byte strings for equality.
pub fn bytes_eq(a: &[u8], b: &[u8]) -> (r: bool)
    ensures
        r == (a@ == b@),
{
    if a.len() != b.len() {
        return false;
    }
    let r = matches_at(a, 0, b);
    proof {
        assert(a@.subrange(0, a@.len() as int) =~= a@);
    }
    r
}

/// In well-formed UTF-8 the position just after a one-byte character is a
/// character boundary.
pub proof fn lemma_boundary_after_ascii(bytes: Seq<u8>, k: int)
    requires
        valid_utf8(bytes),
        0 <= k < bytes.len(),
        bytes[k] <= 0x7f,
    ensures
        is_char_boundary(bytes, k + 1),
    decreases bytes.len(),
{
    let n = length_of_first_scalar(bytes);
    let rest = pop_first_scalar(bytes);
    if k < n {
        assert(k == 0) by {
            if k > 0 {
                assert(is_continuation_byte(bytes[k]));
            }
        }
        assert(n == 1);
        is_char_boundary_start_end_of_seq(rest);
        reveal_with_fuel(is_char_boundary, 2);
    } else {
        assert(rest[k - n] == bytes[k]);
        lemma_boundary_after_ascii(rest, k - n);
    }
}

/// In well-formed UTF-8 a position that holds a one-byte character is a
/// character boundary.
pub proof fn lemma_boundary_at_ascii(bytes: Seq<u8>, k: int)
    requires
        valid_utf8(bytes),
        0 <= k < bytes.len(),
        bytes[k] <= 0x7f,
    ensures
        is_char_boundary(bytes, k),
{
    is_char_boundary_iff_not_is_continuation_byte(bytes, k);
}

/// Appends the bytes of `src` to `out`.
pub fn append_bytes(out: &mut Vec<u8>, src: &[u8])
    ensures
        final(out)@ == old(out)@ + src@,
{
    let mut i: usize = 0;
    while i < src.len()
        invariant
            i <= src@.len(),
            out@ == old(out)@ + src@.take(i as int),
        decreases src@.len() - i,
    {
        out.push(src[i]);
        proof {
            assert(src@.take(i + 1) =~= src@.take(i as int).push(src@[i as int]));
        }
        i += 1;
    }
    proof {
        assert(src@.take(i as int) =~= src@);
    }
}

/// The index of the first `b` in `s`; the length of `s` where there is none.
pub open spec fn index_of(s: Seq<u8>, b: u8) -> int
    decreases s.len(),
{
    if s.len() == 0 || s[0] == b {
        0
    } else {
        1 + index_of(s.skip(1), b)
    }
}

/// The index of the last `b` in `s`, if there is one.
pub open spec fn last_index_of(s: Seq<u8>, b: u8) -> Option<int>
    decreases s.len(),
{
    if s.len() == 0 {
        None
    } else if s.last() == b {
        Some(s.len() - 1)
    } else {
        last_index_of(s.drop_last(), b)
    }
}

/// Whether `s` ends with `suffix`.
pub open spec fn ends_with(s: Seq<u8>, suffix: Seq<u8>) -> bool {
    suffix.len() <= s.len() && s.skip(s.len() - suffix.len()) == suffix
}

/// The view of an optional byte string.
pub open spec fn opt_bytes_view(o: Option<Vec<u8>>) -> Option<Seq<u8>> {
    match o {
        Some(v) => Some(v@),
        None => None,
    }
}

/// The view of an optional byte slice.
pub open spec fn opt_slice_view(o: Option<&[u8]>) -> Option<Seq<u8>> {
    match o {
        Some(v) => Some(v@),
        None => None,
    }
}

/// `index_of` lies within `s`, no earlier index holds `b`, and it holds `b`
/// itself unless it is the end.
pub proof fn lemma_index_of(s: Seq<u8>, b: u8)
    ensures
        0 <= index_of(s, b) <= s.len(),
        forall|i: int| 0 <= i < index_of(s, b) ==> #[trigger] s[i] != b,
        index_of(s, b) < s.len() ==> s[index_of(s, b)] == b,
    decreases s.len(),
{
    if s.len() > 0 && s[0] != b {
        let t = s.skip(1);
        lemma_index_of(t, b);
        assert forall|i: int| 0 <= i < 1 + index_of(t, b) implies #[trigger] s[i] != b by {
            if i > 0 {
                assert(t[i - 1] == s[i]);
            }
        }
        if index_of(t, b) < t.len() {
            assert(t[index_of(t, b)] == s[1 + index_of(t, b)]);
        }
    }
}

/// `last_index_of` finds an index that holds `b` with none after it, and
/// finds none exactly when `b` does not occur.
pub proof fn lemma_last_index_of(s: Seq<u8>, b: u8)
    ensures
        match last_index_of(s, b) {
            Some(p) => 0 <= p < s.len() && s[p] == b && forall|i: int|
                p < i < s.len() ==> #[trigger] s[i] != b,
            None => forall|i: int| 0 <= i < s.len() ==> #[trigger] s[i] != b,
        },
    decreases s.len(),
{
    if s.len() > 0 && s.last() != b {
        let t = s.drop_last();
        lemma_last_index_of(t, b);
        match last_index_of(t, b) {
            Some(p) => {
                assert(t[p] == s[p]);
                assert forall|i: int| p < i < s.len() implies #[trigger] s[i] != b by {
                    if i < t.len() {
                        assert(t[i] == s[i]);
                    }
                }
            },
            None => {
                assert forall|i: int| 0 <= i < s.len() implies #[trigger] s[i] != b by {
                    if i < t.len() {
                        assert(t[i] == s[i]);
                    }
                }
            },
        }
    }
}

/// Finds the first `b` in `s`; returns the length of `s` where there is none.
pub fn find_byte(s: &[u8], b: u8) -> (at: usize)
    ensures
        at == index_of(s@, b),
        at <= s@.len(),
{
    let mut i: usize = 0;
    proof {
        assert(s@.skip(0) =~= s@);
    }
    while i < s.len() && s[i] != b
        invariant
            i <= s@.len(),
            index_of(s@, b) == i + index_of(s@.skip(i as int), b),
        decreases s@.len() - i,
    {
        proof {
            assert(s@.skip(i as int)[0] == s@[i as int]);
            assert(s@.skip(i as int).skip(1) =~= s@.skip(i + 1));
        }
        i += 1;
    }
    proof {
        if i < s@.len() {
            assert(s@.skip(i as int)[0] == s@[i as int]);
        }
    }
    i
}

/// Finds the last `b` in `s`.
pub fn rfind_byte(s: &[u8], b: u8) -> (at: Option<usize>)
    ensures
        match at {
            Some(p) => last_index_of(s@, b) == Some(p as int),
            None => last_index_of(s@, b) is None,
        },
{
    let mut i: usize = s.len();
    proof {
        assert(s@.take(i as int) =~= s@);
    }
    while i > 0
        invariant
            i <= s@.len(),
            last_index_of(s@, b) == last_index_of(s@.take(i as int), b),
        decreases i,
    {
        proof {
            assert(s@.take(i as int).last() == s@[i - 1]);
            assert(s@.take(i as int).drop_last() =~= s@.take(i - 1));
        }
        if s[i - 1] == b {
            return Some(i - 1);
        }
        i -= 1;
    }
    None
}

/// Tests whether `s` ends with `suffix`.
pub fn has_suffix(s: &[u8], suffix: &[u8]) -> (r: bool)
    ensures
        r == ends_with(s@, suffix@),
{
    if suffix.len() > s.len() {
        return false;
    }
    let at = s.len() - suffix.len();
    let r = matches_at(s, at, suffix);
    proof {
        assert(s@.subrange(at as int, at + suffix@.len()) =~= s@.skip(at as int));
    }
    r
}

} // verus!
