//! Percent-encoding of byte strings, as used in URL path segments and
//! query strings.
//!
//! A byte in the unreserved set (ASCII letters, digits, `-`, `.`, `_`, `~`)
//! is copied unchanged; every other byte becomes `%` followed by two
//! upper-case hexadecimal digits.  Decoding accepts lower-case digits too,
//! and optionally maps `+` to a space, as form-encoded query strings do.

use vstd::prelude::*;

verus! {

/// Bytes that percent-encoding copies unchanged: ASCII letters, digits,
/// and `-`, `.`, `_`, `~` (the RFC 3986 unreserved set).
pub open spec fn is_unreserved(b: u8) -> bool {
    (0x41 <= b && b <= 0x5a) || (0x61 <= b && b <= 0x7a) || (0x30 <= b && b <= 0x39)
        || b == 0x2d || b == 0x2e || b == 0x5f || b == 0x7e
}

/// ASCII code of the upper-case hexadecimal digit of a value below 16.
pub open spec fn hex_digit(n: u8) -> u8
    recommends
        n < 16,
{
    if n < 10 {
        (0x30 + n) as u8
    } else {
        (0x37 + n) as u8
    }
}

/// Value of an ASCII hexadecimal digit (either case), or 255 for any
/// other byte.
pub open spec fn hex_value(b: u8) -> u8 {
    if 0x30 <= b && b <= 0x39 {
        (b - 0x30) as u8
    } else if 0x41 <= b && b <= 0x46 {
        (b - 0x37) as u8
    } else if 0x61 <= b && b <= 0x66 {
        (b - 0x57) as u8
    } else {
        255u8
    }
}

pub open spec fn is_hex_digit(b: u8) -> bool {
    hex_value(b) != 255
}

/// Percent-encoding of a single byte.
pub open spec fn encoded_byte(b: u8) -> Seq<u8> {
    if is_unreserved(b) {
        seq![b]
    } else {
        seq![0x25u8, hex_digit(b / 16), hex_digit(b % 16)]
    }
}

/// Percent-encoding of a byte string.
pub open spec fn percent_encoding(s: Seq<u8>) -> Seq<u8>
    decreases s.len(),
{
    if s.len() == 0 {
        Seq::empty()
    } else {
        encoded_byte(s[0]) + percent_encoding(s.skip(1))
    }
}

/// Percent-decoding of a byte string; `None` on a malformed escape.
///
/// With `plus_space` set, a `+` decodes to a space, as in form-encoded
/// query strings; path segments are decoded without it.
pub open spec fn percent_decoding(s: Seq<u8>, plus_space: bool) -> Option<Seq<u8>>
    decreases s.len(),
{
    if s.len() == 0 {
        Some(Seq::empty())
    } else if s[0] == 0x25 {
        if s.len() >= 3 && is_hex_digit(s[1]) && is_hex_digit(s[2]) {
            match percent_decoding(s.skip(3), plus_space) {
                Some(t) => Some(seq![(hex_value(s[1]) * 16 + hex_value(s[2])) as u8] + t),
                None => None,
            }
        } else {
            None
        }
    } else {
        let b = if s[0] == 0x2b && plus_space {
            0x20u8
        } else {
            s[0]
        };
        match percent_decoding(s.skip(1), plus_space) {
            Some(t) => Some(seq![b] + t),
            None => None,
        }
    }
}

proof fn lemma_encoding_snoc(s: Seq<u8>, b: u8)
    ensures
        percent_encoding(s.push(b)) == percent_encoding(s) + encoded_byte(b),
    decreases s.len(),
{
    if s.len() == 0 {
        assert(s.push(b).len() == 1);
        assert(s.push(b)[0] == b);
        assert(s.push(b).skip(1) =~= Seq::<u8>::empty());
        assert(percent_encoding(s.push(b).skip(1)) == Seq::<u8>::empty());
        assert(percent_encoding(s.push(b)) == encoded_byte(b) + percent_encoding(
            s.push(b).skip(1),
        ));
        assert(percent_encoding(s) == Seq::<u8>::empty());
        assert(percent_encoding(s) + encoded_byte(b) =~= encoded_byte(b) + Seq::<u8>::empty());
    } else {
        assert(s.push(b)[0] == s[0]);
        assert(s.push(b).skip(1) =~= s.skip(1).push(b));
        lemma_encoding_snoc(s.skip(1), b);
        assert(percent_encoding(s.push(b)) =~= percent_encoding(s) + encoded_byte(b));
    }
}

fn exec_is_unreserved(b: u8) -> (r: bool)
    ensures
        r == is_unreserved(b),
{
    (0x41 <= b && b <= 0x5a) || (0x61 <= b && b <= 0x7a) || (0x30 <= b && b <= 0x39)
        || b == 0x2d || b == 0x2e || b == 0x5f || b == 0x7e
}

fn exec_hex_digit(n: u8) -> (r: u8)
    requires
        n < 16,
    ensures
        r == hex_digit(n),
{
    if n < 10 {
        0x30 + n
    } else {
        0x37 + n
    }
}

fn exec_hex_value(b: u8) -> (r: u8)
    ensures
        r == hex_value(b),
{
    if 0x30 <= b && b <= 0x39 {
        b - 0x30
    } else if 0x41 <= b && b <= 0x46 {
        b - 0x37
    } else if 0x61 <= b && b <= 0x66 {
        b - 0x57
    } else {
        255
    }
}

/// Percent-encodes a byte string.
pub fn percent_encode(s: &[u8]) -> (r: Vec<u8>)
    ensures
        r@ == percent_encoding(s@),
{
    let mut out: Vec<u8> = Vec::new();
    let mut i: usize = 0;
    while i < s.len()
        invariant
            i <= s.len(),
            out@ == percent_encoding(s@.take(i as int)),
        decreases s.len() - i,
    {
        let b = s[i];
        if exec_is_unreserved(b) {
            out.push(b);
        } else {
            out.push(0x25);
            out.push(exec_hex_digit(b / 16));
            out.push(exec_hex_digit(b % 16));
        }
        proof {
            assert(s@.take(i + 1) =~= s@.take(i as int).push(s@[i as int]));
            lemma_encoding_snoc(s@.take(i as int), s@[i as int]);
            assert(out@ =~= percent_encoding(s@.take(i as int)) + encoded_byte(s@[i as int]));
        }
        i = i + 1;
    }
    proof {
        assert(s@.take(s@.len() as int) =~= s@);
    }
    out
}

/// Percent-decodes a byte string; `None` on a malformed escape.
pub fn percent_decode(s: &[u8], plus_space: bool) -> (r: Option<Vec<u8>>)
    ensures
        match r {
            Some(v) => percent_decoding(s@, plus_space) == Some(v@),
            None => percent_decoding(s@, plus_space) is None,
        },
{
    let mut out: Vec<u8> = Vec::new();
    let mut i: usize = 0;
    proof {
        assert(s@.skip(0) =~= s@);
        if percent_decoding(s@, plus_space) is Some {
            assert(out@ + percent_decoding(s@, plus_space).unwrap() =~= percent_decoding(
                s@,
                plus_space,
            ).unwrap());
        }
    }
    while i < s.len()
        invariant
            i <= s.len(),
            percent_decoding(s@, plus_space) is Some <==> percent_decoding(
                s@.skip(i as int),
                plus_space,
            ) is Some,
            percent_decoding(s@.skip(i as int), plus_space) is Some ==> percent_decoding(
                s@,
                plus_space,
            ).unwrap() == out@ + percent_decoding(s@.skip(i as int), plus_space).unwrap(),
        decreases s.len() - i,
    {
        let ghost rest = s@.skip(i as int);
        let ghost prev = out@;
        let b = s[i];
        assert(rest[0] == b);
        if b == 0x25 {
            if s.len() - i >= 3 {
                let h1 = exec_hex_value(s[i + 1]);
                let h2 = exec_hex_value(s[i + 2]);
                assert(rest[1] == s@[i + 1]);
                assert(rest[2] == s@[i + 2]);
                if h1 != 255 && h2 != 255 {
                    assert(h1 < 16 && h2 < 16);
                    let d = h1 * 16 + h2;
                    out.push(d);
                    proof {
                        assert(rest.skip(3) =~= s@.skip(i + 3));
                        let tail = percent_decoding(s@.skip(i + 3), plus_space);
                        if tail is Some {
                            assert(percent_decoding(rest, plus_space).unwrap() == seq![d]
                                + tail.unwrap());
                            assert(prev + (seq![d] + tail.unwrap()) =~= out@ + tail.unwrap());
                        }
                    }
                    i = i + 3;
                } else {
                    assert(percent_decoding(rest, plus_space) is None);
                    return None;
                }
            } else {
                assert(rest.len() < 3);
                assert(percent_decoding(rest, plus_space) is None);
                return None;
            }
        } else {
            let d = if b == 0x2b && plus_space {
                0x20
            } else {
                b
            };
            out.push(d);
            proof {
                assert(rest.skip(1) =~= s@.skip(i + 1));
                let tail = percent_decoding(s@.skip(i + 1), plus_space);
                if tail is Some {
                    assert(percent_decoding(rest, plus_space).unwrap() == seq![d]
                        + tail.unwrap());
                    assert(prev + (seq![d] + tail.unwrap()) =~= out@ + tail.unwrap());
                }
            }
            i = i + 1;
        }
    }
    proof {
        assert(s@.skip(s@.len() as int) =~= Seq::<u8>::empty());
        assert(out@ + Seq::<u8>::empty() =~= out@);
    }
    Some(out)
}

/// Round trip: decoding a percent-encoded byte string gives the bytes back.
///
/// The encoder never writes `+`, so the result does not depend on the
/// `plus_space` decoding mode.
pub proof fn lemma_percent_round_trip(s: Seq<u8>, plus_space: bool)
    ensures
        percent_decoding(percent_encoding(s), plus_space) == Some(s),
    decreases s.len(),
{
    if s.len() == 0 {
    } else {
        let b = s[0];
        let enc = percent_encoding(s);
        lemma_percent_round_trip(s.skip(1), plus_space);
        if is_unreserved(b) {
            assert(b != 0x25 && b != 0x2b);
            assert(enc.skip(1) =~= percent_encoding(s.skip(1)));
            assert(seq![b] + s.skip(1) =~= s);
        } else {
            assert(b / 16 < 16 && b % 16 < 16) by (bit_vector);
            lemma_hex_digit_value(b / 16);
            lemma_hex_digit_value(b % 16);
            assert(enc[0] == 0x25);
            assert(enc.len() >= 3);
            assert(enc[1] == hex_digit(b / 16));
            assert(enc[2] == hex_digit(b % 16));
            assert(enc.skip(3) =~= percent_encoding(s.skip(1)));
            assert(hex_value(enc[1]) * 16 + hex_value(enc[2]) == (b / 16) * 16 + b % 16);
            assert((b / 16) * 16 + b % 16 == b) by (bit_vector);
            assert(seq![b] + s.skip(1) =~= s);
        }
    }
}

/// Every byte of a percent-encoded string is unreserved or `%`.
///
/// In particular the encoder never writes `/`, `&`, `=`, `+`, or any
/// byte at or above 0x80, so encoded values cannot be mistaken for the
/// separators around them and are valid UTF-8 as they stand.
pub proof fn lemma_percent_encoding_bytes(s: Seq<u8>)
    ensures
        forall|i: int|
            0 <= i < percent_encoding(s).len() ==> is_unreserved(#[trigger] percent_encoding(s)[i])
                || percent_encoding(s)[i] == 0x25,
    decreases s.len(),
{
    if s.len() > 0 {
        lemma_percent_encoding_bytes(s.skip(1));
        assert(forall|i: int|
            0 <= i < encoded_byte(s[0]).len() ==> is_unreserved(#[trigger] encoded_byte(s[0])[i])
                || encoded_byte(s[0])[i] == 0x25);
        assert(forall|i: int|
            0 <= i < percent_encoding(s).len() ==> percent_encoding(s)[i] == if i < encoded_byte(
                s[0],
            ).len() {
                encoded_byte(s[0])[i]
            } else {
                percent_encoding(s.skip(1))[i - encoded_byte(s[0]).len()]
            });
    }
}

proof fn lemma_hex_digit_value(n: u8)
    requires
        n < 16,
    ensures
        is_hex_digit(hex_digit(n)),
        hex_value(hex_digit(n)) == n,
{
}

} // verus!
