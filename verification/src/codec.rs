//! The path codec: encoding ordered parameter values into a concrete
//! URL path against a template, and decoding incoming path segments back
//! into parameter values.
//!
//! Decoding tolerates exactly one missing trailing segment: when one
//! fewer segment than the template's placeholder count is supplied, the
//! last parameter decodes to the empty string.  This supports endpoints
//! whose final path parameter became optional in a newer protocol
//! version.  Any other arity mismatch is rejected.

use vstd::prelude::*;
use vstd::utf8::decode_utf8;
use vstd::utf8::encode_utf8;
use vstd::utf8::valid_utf8;
use crate::percent::percent_decode;
use crate::percent::percent_decoding;
use crate::percent::percent_encode;
use crate::percent::percent_encoding;
use crate::percent::is_unreserved;
use crate::percent::lemma_percent_encoding_bytes;
use crate::percent::lemma_percent_round_trip;
use crate::template::PathTemplate;
use crate::template::Segment;
use crate::template::SegmentView;
use crate::template::lemma_placeholder_count_bounds;
use crate::template::lemma_placeholder_count_decompose;
use crate::template::spec_placeholder_count;
use crate::text::lemma_ascii_bytes_valid;
use crate::text::push_bytes;
use crate::text::utf8_string;

verus! {

/// The percent-encoded UTF-8 bytes of a parameter value.
pub open spec fn encoded_value_bytes(v: Seq<char>) -> Seq<u8> {
    percent_encoding(encode_utf8(v))
}

/// The percent-encoded form of a parameter value, as characters.
pub open spec fn encoded_value_chars(v: Seq<char>) -> Seq<char> {
    decode_utf8(encoded_value_bytes(v))
}

/// The views of a sequence of strings.
pub open spec fn string_views(vs: Seq<String>) -> Seq<Seq<char>> {
    vs.map(|i: int, s: String| s@)
}

/// The UTF-8 bytes of the path built from a template and ordered
/// parameter values: each segment is preceded by `/`; literal segments
/// are copied verbatim; each parameter consumes the next value,
/// percent-encoded.
pub open spec fn spec_rendered_path(t: Seq<SegmentView>, values: Seq<Seq<char>>) -> Seq<u8>
    decreases t.len(),
{
    if t.len() == 0 {
        Seq::empty()
    } else {
        match t[0] {
            SegmentView::Literal(s) => seq![0x2fu8] + encode_utf8(s) + spec_rendered_path(
                t.skip(1),
                values,
            ),
            SegmentView::Parameter(_) => seq![0x2fu8] + encoded_value_bytes(values[0])
                + spec_rendered_path(t.skip(1), values.skip(1)),
        }
    }
}

/// Every byte of a percent-encoded value is ASCII, so the encoding is
/// valid UTF-8 and contains no separator byte.
pub proof fn lemma_encoded_value_ascii(v: Seq<char>)
    ensures
        forall|i: int| 0 <= i < encoded_value_bytes(v).len() ==> encoded_value_bytes(v)[i] < 0x80,
        valid_utf8(encoded_value_bytes(v)),
{
    lemma_percent_encoding_bytes(encode_utf8(v));
    assert(forall|i: int|
        0 <= i < encoded_value_bytes(v).len() ==> is_unreserved(
            #[trigger] encoded_value_bytes(v)[i],
        ) || encoded_value_bytes(v)[i] == 0x25);
    lemma_ascii_bytes_valid(encoded_value_bytes(v));
}

/// A rendered path is valid UTF-8.
pub proof fn lemma_rendered_path_valid(t: Seq<SegmentView>, values: Seq<Seq<char>>)
    ensures
        valid_utf8(spec_rendered_path(t, values)),
    decreases t.len(),
{
    if t.len() == 0 {
    } else {
        let sep = seq![0x2fu8];
        assert(valid_utf8(sep)) by {
            lemma_ascii_bytes_valid(sep);
        }
        match t[0] {
            SegmentView::Literal(s) => {
                vstd::utf8::encode_utf8_valid_utf8(s);
                lemma_rendered_path_valid(t.skip(1), values);
                vstd::utf8::valid_utf8_concat(sep, encode_utf8(s));
                vstd::utf8::valid_utf8_concat(
                    sep + encode_utf8(s),
                    spec_rendered_path(t.skip(1), values),
                );
                assert((sep + encode_utf8(s)) + spec_rendered_path(t.skip(1), values)
                    =~= sep + encode_utf8(s) + spec_rendered_path(t.skip(1), values));
            },
            SegmentView::Parameter(_) => {
                lemma_encoded_value_ascii(values[0]);
                lemma_rendered_path_valid(t.skip(1), values.skip(1));
                vstd::utf8::valid_utf8_concat(sep, encoded_value_bytes(values[0]));
                vstd::utf8::valid_utf8_concat(
                    sep + encoded_value_bytes(values[0]),
                    spec_rendered_path(t.skip(1), values.skip(1)),
                );
                assert((sep + encoded_value_bytes(values[0])) + spec_rendered_path(
                    t.skip(1),
                    values.skip(1),
                ) =~= sep + encoded_value_bytes(values[0]) + spec_rendered_path(
                    t.skip(1),
                    values.skip(1),
                ));
            },
        }
    }
}

/// Encodes ordered parameter values into a path against a template.
///
/// Returns the UTF-8 bytes of the path, or `None` when the template has
/// more placeholders than values were supplied.  When the template has
/// fewer placeholders than values, only the leading ones are encoded and
/// the remainder are dropped.
pub fn encode_path(t: &PathTemplate, values: &Vec<String>) -> (r: Option<Vec<u8>>)
    ensures
        r is Some <==> spec_placeholder_count(t@) <= values@.len(),
        r is Some ==> r.unwrap()@ == spec_rendered_path(t@, string_views(values@)),
{
    let ghost tv = t@;
    let ghost vs = string_views(values@);
    let mut out: Vec<u8> = Vec::new();
    let mut i: usize = 0;
    let mut j: usize = 0;
    proof {
        assert(tv.skip(0) =~= tv);
        assert(vs.skip(0) =~= vs);
        assert(tv.take(0) =~= Seq::<SegmentView>::empty());
        assert(out@ + spec_rendered_path(tv, vs) =~= spec_rendered_path(tv, vs));
    }
    while i < t.segments.len()
        invariant
            i <= t.segments.len(),
            j <= values.len(),
            tv == t@,
            vs == string_views(values@),
            vs.len() == values@.len(),
            j == spec_placeholder_count(tv.take(i as int)),
            spec_rendered_path(tv, vs) == out@ + spec_rendered_path(
                tv.skip(i as int),
                vs.skip(j as int),
            ),
        decreases t.segments.len() - i,
    {
        let ghost rest = tv.skip(i as int);
        let ghost vrest = vs.skip(j as int);
        let ghost prev = out@;
        proof {
            assert(rest[0] == tv[i as int]);
            assert(tv[i as int] == t.segments@[i as int]@);
            assert(rest.skip(1) =~= tv.skip(i + 1));
            assert(tv.take(i + 1) =~= tv.take(i as int).push(tv[i as int]));
            crate::template::lemma_placeholder_count_snoc(tv.take(i as int), tv[i as int]);
        }
        match &t.segments[i] {
            Segment::Literal(s) => {
                out.push(0x2f);
                push_bytes(&mut out, s.as_str().as_bytes());
                proof {
                    assert(spec_rendered_path(rest, vrest) == seq![0x2fu8] + encode_utf8(s@)
                        + spec_rendered_path(tv.skip(i + 1), vrest));
                    assert(out@ =~= prev + (seq![0x2fu8] + encode_utf8(s@)));
                    assert(prev + (seq![0x2fu8] + encode_utf8(s@) + spec_rendered_path(
                        tv.skip(i + 1),
                        vrest,
                    )) =~= out@ + spec_rendered_path(tv.skip(i + 1), vrest));
                }
            },
            Segment::Parameter(_) => {
                if j >= values.len() {
                    proof {
                        lemma_placeholder_count_decompose(tv, i as int);
                        lemma_placeholder_count_bounds(tv.skip(i + 1));
                        assert(spec_placeholder_count(rest) == 1 + spec_placeholder_count(
                            tv.skip(i + 1),
                        ));
                        assert(spec_placeholder_count(tv) > values@.len());
                    }
                    return None;
                }
                let enc = percent_encode(values[j].as_str().as_bytes());
                out.push(0x2f);
                push_bytes(&mut out, enc.as_slice());
                proof {
                    assert(vrest[0] == vs[j as int]);
                    assert(vs[j as int] == values@[j as int]@);
                    assert(vrest.skip(1) =~= vs.skip(j + 1));
                    assert(enc@ == encoded_value_bytes(values@[j as int]@));
                    assert(spec_rendered_path(rest, vrest) == seq![0x2fu8] + encoded_value_bytes(
                        vrest[0],
                    ) + spec_rendered_path(tv.skip(i + 1), vs.skip(j + 1)));
                    assert(out@ =~= prev + (seq![0x2fu8] + encoded_value_bytes(vrest[0])));
                    assert(prev + (seq![0x2fu8] + encoded_value_bytes(vrest[0])
                        + spec_rendered_path(tv.skip(i + 1), vs.skip(j + 1))) =~= out@
                        + spec_rendered_path(tv.skip(i + 1), vs.skip(j + 1)));
                }
                j = j + 1;
            },
        }
        i = i + 1;
    }
    proof {
        assert(tv.take(tv.len() as int) =~= tv);
        assert(tv.skip(tv.len() as int) =~= Seq::<SegmentView>::empty());
        assert(spec_rendered_path(Seq::<SegmentView>::empty(), vs.skip(j as int))
            == Seq::<u8>::empty());
        assert(out@ + Seq::<u8>::empty() =~= out@);
    }
    Some(out)
}

/// The decoding of one incoming path segment: percent-decoding of its
/// UTF-8 bytes, which must themselves decode as UTF-8.
pub open spec fn spec_decoded_value(v: Seq<char>) -> Option<Seq<char>> {
    match percent_decoding(encode_utf8(v), false) {
        Option::None => Option::None,
        Option::Some(b) => if valid_utf8(b) {
            Option::Some(decode_utf8(b))
        } else {
            Option::None
        },
    }
}

/// The decodings of a list of incoming path segments; `None` when any
/// segment is unparseable.
pub open spec fn spec_decoded_values(segs: Seq<Seq<char>>) -> Option<Seq<Seq<char>>>
    decreases segs.len(),
{
    if segs.len() == 0 {
        Option::Some(Seq::empty())
    } else {
        match spec_decoded_value(segs[0]) {
            Option::None => Option::None,
            Option::Some(v) => match spec_decoded_values(segs.skip(1)) {
                Option::None => Option::None,
                Option::Some(r) => Option::Some(seq![v] + r),
            },
        }
    }
}

/// The decoding of incoming path segments against a template.
///
/// With exactly one value per placeholder, every segment is decoded.
/// With exactly one fewer, the last parameter is treated as absent and
/// decodes to the empty string.  Any other arity is rejected, as is any
/// unparseable segment.
pub open spec fn spec_decode_path(segs: Seq<Seq<char>>, t: Seq<SegmentView>) -> Option<
    Seq<Seq<char>>,
> {
    let n = spec_placeholder_count(t);
    if segs.len() == n {
        spec_decoded_values(segs)
    } else if segs.len() + 1 == n {
        match spec_decoded_values(segs) {
            Option::None => Option::None,
            Option::Some(vs) => Option::Some(vs.push(Seq::empty())),
        }
    } else {
        Option::None
    }
}

/// Decodes a list of incoming path segments; `None` when any segment
/// is unparseable.
pub fn decode_segments(segs: &Vec<String>) -> (r: Option<Vec<String>>)
    ensures
        match r {
            Option::Some(vs) => spec_decoded_values(string_views(segs@)) == Option::Some(
                string_views(vs@),
            ),
            Option::None => spec_decoded_values(string_views(segs@)) is None,
        },
{
    let ghost sv = string_views(segs@);
    let mut out: Vec<String> = Vec::new();
    let mut i: usize = 0;
    proof {
        assert(sv.skip(0) =~= sv);
        if spec_decoded_values(sv) is Some {
            assert(string_views(out@) + spec_decoded_values(sv).unwrap() =~= spec_decoded_values(
                sv,
            ).unwrap());
        }
    }
    while i < segs.len()
        invariant
            i <= segs.len(),
            sv == string_views(segs@),
            sv.len() == segs@.len(),
            out@.len() == i,
            spec_decoded_values(sv) is Some <==> spec_decoded_values(sv.skip(i as int)) is Some,
            spec_decoded_values(sv.skip(i as int)) is Some ==> spec_decoded_values(sv).unwrap()
                == string_views(out@) + spec_decoded_values(sv.skip(i as int)).unwrap(),
        decreases segs.len() - i,
    {
        let ghost rest = sv.skip(i as int);
        let ghost prev = string_views(out@);
        proof {
            assert(rest[0] == sv[i as int]);
            assert(sv[i as int] == segs@[i as int]@);
            assert(rest.skip(1) =~= sv.skip(i + 1));
        }
        let decoded = percent_decode(segs[i].as_str().as_bytes(), false);
        match decoded {
            Option::None => {
                assert(spec_decoded_value(rest[0]) is None);
                assert(spec_decoded_values(rest) is None);
                return None;
            },
            Option::Some(bytes) => {
                match utf8_string(bytes) {
                    Option::None => {
                        assert(spec_decoded_value(rest[0]) is None);
                        assert(spec_decoded_values(rest) is None);
                        return None;
                    },
                    Option::Some(s) => {
                        assert(spec_decoded_value(rest[0]) == Option::Some(s@));
                        out.push(s);
                        proof {
                            let tail = spec_decoded_values(sv.skip(i + 1));
                            if tail is Some {
                                assert(spec_decoded_values(rest).unwrap() == seq![s@]
                                    + tail.unwrap());
                                assert(string_views(out@) =~= prev.push(s@));
                                assert(prev + (seq![s@] + tail.unwrap()) =~= string_views(out@)
                                    + tail.unwrap());
                            }
                        }
                    },
                }
            },
        }
        i = i + 1;
    }
    proof {
        assert(sv.skip(sv.len() as int) =~= Seq::<Seq<char>>::empty());
        assert(string_views(out@) + Seq::<Seq<char>>::empty() =~= string_views(out@));
        assert(spec_decoded_values(sv) == Option::Some(string_views(out@)));
    }
    Some(out)
}

/// Decodes incoming path segments against a template, applying the
/// one-missing-trailing-segment tolerance; `None` is a malformed path.
pub fn decode_path(segs: &Vec<String>, t: &PathTemplate) -> (r: Option<Vec<String>>)
    ensures
        match r {
            Option::Some(vs) => spec_decode_path(string_views(segs@), t@) == Option::Some(
                string_views(vs@),
            ),
            Option::None => spec_decode_path(string_views(segs@), t@) is None,
        },
{
    let ghost sv = string_views(segs@);
    let n = t.placeholder_count();
    if !(segs.len() == n || (n > 0 && segs.len() == n - 1)) {
        return None;
    }
    let mut out = match decode_segments(segs) {
        Option::Some(vs) => vs,
        Option::None => {
            return None;
        },
    };
    if segs.len() == n {
        return Some(out);
    }
    let empty_last = String::new();
    out.push(empty_last);
    proof {
        let ghost before = out@.drop_last();
        assert(string_views(out@) =~= string_views(before).push(out@.last()@));
    }
    Some(out)
}

/// Round trip: decoding the percent-encoded forms of parameter values
/// against a template with one placeholder per value gives the values
/// back, for path fields of any content.
pub proof fn lemma_path_round_trip(values: Seq<Seq<char>>, t: Seq<SegmentView>)
    requires
        spec_placeholder_count(t) == values.len(),
    ensures
        spec_decode_path(values.map(|i: int, v: Seq<char>| encoded_value_chars(v)), t)
            == Option::Some(values),
{
    lemma_decoded_values_of_encoded(values);
}

/// Decoding each percent-encoded value gives the values back.
proof fn lemma_decoded_values_of_encoded(values: Seq<Seq<char>>)
    ensures
        spec_decoded_values(values.map(|i: int, v: Seq<char>| encoded_value_chars(v)))
            == Option::Some(values),
    decreases values.len(),
{
    let enc = values.map(|i: int, v: Seq<char>| encoded_value_chars(v));
    if values.len() == 0 {
        assert(enc.len() == 0);
    } else {
        lemma_decoded_value_of_encoded(values[0]);
        assert(enc[0] == encoded_value_chars(values[0]));
        lemma_decoded_values_of_encoded(values.skip(1));
        assert(enc.skip(1) =~= values.skip(1).map(
            |i: int, v: Seq<char>| encoded_value_chars(v),
        ));
        assert(seq![values[0]] + values.skip(1) =~= values);
    }
}

/// Decoding one percent-encoded value gives the value back.
proof fn lemma_decoded_value_of_encoded(v: Seq<char>)
    ensures
        spec_decoded_value(encoded_value_chars(v)) == Option::Some(v),
{
    lemma_encoded_value_ascii(v);
    vstd::utf8::decode_utf8_encode_utf8(encoded_value_bytes(v));
    assert(encode_utf8(encoded_value_chars(v)) == encoded_value_bytes(v));
    lemma_percent_round_trip(encode_utf8(v), false);
    vstd::utf8::encode_utf8_valid_utf8(v);
    vstd::utf8::encode_utf8_decode_utf8(v);
}

} // verus!
