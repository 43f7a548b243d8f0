//! Unpadded base64url encoding into a caller-supplied fixed-size buffer.

use vstd::prelude::*;

verus! {

/// The character of the base64url alphabet (`A-Z a-z 0-9 - _`) that stands for
/// the six-bit value `v`.
pub open spec fn b64url_char(v: u8) -> u8 {
    if v < 26 {
        (65 + v) as u8
    } else if v < 52 {
        (97 + (v - 26)) as u8
    } else if v < 62 {
        (48 + (v - 52)) as u8
    } else if v == 62 {
        45
    } else {
        95
    }
}

/// The number of characters that encode `n` bytes: four per full group of
/// three bytes, two for one trailing byte, three for two.
pub open spec fn b64url_len(n: int) -> int {
    (4 * n + 2) / 3
}

/// The byte of `data` at `i`, or zero past its end.
pub open spec fn byte_or_zero(data: Seq<u8>, i: int) -> u8 {
    if 0 <= i < data.len() {
        data[i]
    } else {
        0
    }
}

/// The six-bit value that output position `k` carries.
pub open spec fn b64url_sextet(data: Seq<u8>, k: int) -> u8 {
    let i = 3 * (k / 4);
    let b0 = byte_or_zero(data, i);
    let b1 = byte_or_zero(data, i + 1);
    let b2 = byte_or_zero(data, i + 2);
    if k % 4 == 0 {
        b0 >> 2
    } else if k % 4 == 1 {
        ((b0 & 0b0011) << 4) | (b1 >> 4)
    } else if k % 4 == 2 {
        ((b1 & 0b1111) << 2) | (b2 >> 6)
    } else {
        b2 & 0b111111
    }
}

/// The unpadded base64url encoding of `data`.
pub open spec fn b64url_encode(data: Seq<u8>) -> Seq<u8> {
    Seq::new(b64url_len(data.len() as int) as nat, |k: int| b64url_char(b64url_sextet(data, k)))
}

/// Maps a six-bit value to its character.
fn b64url_digit(v: u8) -> (c: u8)
    requires
        v < 64,
    ensures
        c == b64url_char(v),
{
    if v < 26 {
        65 + v
    } else if v < 52 {
        97 + (v - 26)
    } else if v < 62 {
        48 + (v - 52)
    } else if v == 62 {
        45
    } else {
        95
    }
}

/// Encodes `data` as unpadded base64url into `trg`, starting at `offset`, and
/// returns the buffer with the number of bytes written to it. Bytes of `trg`
/// outside the written range are kept.
pub fn b64url_const<const S: usize>(data: &[u8], trg: [u8; S], offset: usize) -> (res: (
    [u8; S],
    usize,
))
    requires
        offset < S,
        b64url_len(data@.len() as int) <= S - offset,
    ensures
        res.1 == b64url_len(data@.len() as int),
        res.0@ == trg@.take(offset as int) + b64url_encode(data@) + trg@.skip(offset + res.1),
{
    let mut trg = trg;
    let ghost orig = trg@;
    let inp_len = data.len();
    let mut i: usize = 0;
    let mut o: usize = offset;
    while inp_len - i >= 3
        invariant
            inp_len == data@.len(),
            i <= inp_len,
            i % 3 == 0,
            o == offset + 4 * (i / 3),
            offset + b64url_len(inp_len as int) <= S,
            orig.len() == S,
            forall|k: int| 0 <= k < offset ==> trg@[k] == orig[k],
            forall|k: int| o <= k < S ==> trg@[k] == orig[k],
            forall|k: int|
                0 <= k < o - offset ==> trg@[offset + k] == b64url_char(
                    #[trigger] b64url_sextet(data@, k),
                ),
        decreases inp_len - i,
    {
        let b0 = data[i];
        let b1 = data[i + 1];
        let b2 = data[i + 2];
        let s0: u8 = b0 >> 2;
        let s1: u8 = ((b0 & 0b0011) << 4) | (b1 >> 4);
        let s2: u8 = ((b1 & 0b1111) << 2) | (b2 >> 6);
        let s3: u8 = b2 & 0b111111;
        proof {
            assert(b0 >> 2 < 64) by (bit_vector);
            assert((((b0 & 0b0011) << 4) | (b1 >> 4)) < 64) by (bit_vector);
            assert((((b1 & 0b1111) << 2) | (b2 >> 6)) < 64) by (bit_vector);
            assert(b2 & 0b111111 < 64) by (bit_vector);
        }
        let ghost g = (o - offset) as int;
        assert(g == 4 * (i as int / 3));
        assert(b64url_sextet(data@, g) == s0);
        assert(b64url_sextet(data@, g + 1) == s1);
        assert(b64url_sextet(data@, g + 2) == s2);
        assert(b64url_sextet(data@, g + 3) == s3);
        trg[o] = b64url_digit(s0);
        trg[o + 1] = b64url_digit(s1);
        trg[o + 2] = b64url_digit(s2);
        trg[o + 3] = b64url_digit(s3);
        i += 3;
        o += 4;
    }
    let rem = inp_len - i;
    let ghost g = (o - offset) as int;
    if rem == 1 {
        let b0 = data[i];
        let s0: u8 = b0 >> 2;
        let s1: u8 = (b0 & 0b0011) << 4;
        proof {
            assert(b0 >> 2 < 64) by (bit_vector);
            assert(((b0 & 0b0011) << 4) < 64) by (bit_vector);
            assert((((b0 & 0b0011) << 4) | (0u8 >> 4)) == (b0 & 0b0011) << 4) by (bit_vector);
            assert(b64url_sextet(data@, g) == s0);
            assert(b64url_sextet(data@, g + 1) == s1);
        }
        trg[o] = b64url_digit(s0);
        trg[o + 1] = b64url_digit(s1);
        o = o + 2;
    } else if rem == 2 {
        let b0 = data[i];
        let b1 = data[i + 1];
        let s0: u8 = b0 >> 2;
        let s1: u8 = ((b0 & 0b0011) << 4) | (b1 >> 4);
        let s2: u8 = (b1 & 0b1111) << 2;
        proof {
            assert(b0 >> 2 < 64) by (bit_vector);
            assert((((b0 & 0b0011) << 4) | (b1 >> 4)) < 64) by (bit_vector);
            assert(((b1 & 0b1111) << 2) < 64) by (bit_vector);
            assert((((b1 & 0b1111) << 2) | (0u8 >> 6)) == (b1 & 0b1111) << 2) by (bit_vector);
            assert(b64url_sextet(data@, g) == s0);
            assert(b64url_sextet(data@, g + 1) == s1);
            assert(b64url_sextet(data@, g + 2) == s2);
        }
        trg[o] = b64url_digit(s0);
        trg[o + 1] = b64url_digit(s1);
        trg[o + 2] = b64url_digit(s2);
        o = o + 3;
    }
    proof {
        assert(o == offset + b64url_len(inp_len as int));
        assert(trg@ =~= orig.take(offset as int) + b64url_encode(data@) + orig.skip(o as int));
    }
    (trg, o - offset)
}

} // verus!
