//! The query codec: form-encoding optional query fields into a query
//! string and decoding a query string back into key/value pairs.
//!
//! A field whose value is unset is omitted entirely: the encoded string
//! holds no trace of it, not even an empty `key=`.  Present fields are
//! written `key=value` in declaration order, joined with `&`, both key
//! and value percent-encoded.  Decoding splits on `&`, drops empty
//! parts, splits each part at its first `=` (a part without `=` has the
//! empty value), and percent-decodes both halves, mapping `+` to a
//! space as form-encoded strings allow.

use vstd::prelude::*;
use vstd::utf8::decode_utf8;
use vstd::utf8::encode_utf8;
use vstd::utf8::valid_utf8;
use crate::codec::encoded_value_bytes;
use crate::percent::percent_decode;
use crate::percent::percent_decoding;
use crate::percent::percent_encode;
use crate::percent::is_unreserved;
use crate::percent::lemma_percent_encoding_bytes;
use crate::percent::lemma_percent_round_trip;
use crate::text::push_bytes;
use crate::text::utf8_string;
use vstd::string::StringExecFns;

verus! {

/// The views of a list of optional query fields.
pub open spec fn field_views(fields: Seq<(String, Option<String>)>) -> Seq<
    (Seq<char>, Option<Seq<char>>),
> {
    fields.map(
        |i: int, f: (String, Option<String>)|
            (
                f.0@,
                match f.1 {
                    Option::Some(v) => Option::Some(v@),
                    Option::None => Option::None,
                },
            ),
    )
}

/// The present fields, in declaration order; unset fields leave no
/// trace.
pub open spec fn spec_present_pairs(fields: Seq<(Seq<char>, Option<Seq<char>>)>) -> Seq<
    (Seq<char>, Seq<char>),
>
    decreases fields.len(),
{
    if fields.len() == 0 {
        Seq::empty()
    } else {
        let rest = spec_present_pairs(fields.skip(1));
        match fields[0].1 {
            Option::Some(v) => seq![(fields[0].0, v)] + rest,
            Option::None => rest,
        }
    }
}

/// The `key=value` bytes of one pair, both halves percent-encoded.
pub open spec fn spec_pair_bytes(p: (Seq<char>, Seq<char>)) -> Seq<u8> {
    encoded_value_bytes(p.0) + seq![0x3du8] + encoded_value_bytes(p.1)
}

/// Pairs joined with `&`.
pub open spec fn spec_joined(pairs: Seq<(Seq<char>, Seq<char>)>) -> Seq<u8>
    decreases pairs.len(),
{
    if pairs.len() == 0 {
        Seq::empty()
    } else if pairs.len() == 1 {
        spec_pair_bytes(pairs[0])
    } else {
        spec_pair_bytes(pairs[0]) + seq![0x26u8] + spec_joined(pairs.skip(1))
    }
}

/// The query-string bytes encoding a list of optional fields.
pub open spec fn spec_query_encoding(fields: Seq<(Seq<char>, Option<Seq<char>>)>) -> Seq<u8> {
    spec_joined(spec_present_pairs(fields))
}

proof fn lemma_present_pairs_snoc(
    fields: Seq<(Seq<char>, Option<Seq<char>>)>,
    f: (Seq<char>, Option<Seq<char>>),
)
    ensures
        spec_present_pairs(fields.push(f)) == spec_present_pairs(fields) + (match f.1 {
            Option::Some(v) => seq![(f.0, v)],
            Option::None => Seq::empty(),
        }),
    decreases fields.len(),
{
    if fields.len() == 0 {
        assert(fields.push(f).len() == 1);
        assert(fields.push(f)[0] == f);
        assert(fields.push(f).skip(1) =~= Seq::<(Seq<char>, Option<Seq<char>>)>::empty());
        assert(spec_present_pairs(Seq::<(Seq<char>, Option<Seq<char>>)>::empty())
            == Seq::<(Seq<char>, Seq<char>)>::empty());
        assert(spec_present_pairs(fields) == Seq::<(Seq<char>, Seq<char>)>::empty());
        match f.1 {
            Option::Some(v) => {
                assert(spec_present_pairs(fields.push(f)) == seq![(f.0, v)]
                    + spec_present_pairs(fields.push(f).skip(1)));
                assert(seq![(f.0, v)] + Seq::<(Seq<char>, Seq<char>)>::empty() =~= seq![(f.0, v)]);
                assert(spec_present_pairs(fields) + seq![(f.0, v)] =~= seq![(f.0, v)]);
            },
            Option::None => {
                assert(spec_present_pairs(fields.push(f)) == spec_present_pairs(
                    fields.push(f).skip(1),
                ));
                assert(spec_present_pairs(fields) + Seq::<(Seq<char>, Seq<char>)>::empty()
                    =~= Seq::<(Seq<char>, Seq<char>)>::empty());
            },
        }
    } else {
        assert(fields.push(f)[0] == fields[0]);
        assert(fields.push(f).skip(1) =~= fields.skip(1).push(f));
        lemma_present_pairs_snoc(fields.skip(1), f);
        match fields[0].1 {
            Option::Some(v) => {
                assert(spec_present_pairs(fields.push(f)) =~= spec_present_pairs(fields) + (
                match f.1 {
                    Option::Some(w) => seq![(f.0, w)],
                    Option::None => Seq::empty(),
                }));
            },
            Option::None => {
            },
        }
    }
}

proof fn lemma_joined_snoc(pairs: Seq<(Seq<char>, Seq<char>)>, p: (Seq<char>, Seq<char>))
    ensures
        spec_joined(pairs.push(p)) == if pairs.len() == 0 {
            spec_pair_bytes(p)
        } else {
            spec_joined(pairs) + seq![0x26u8] + spec_pair_bytes(p)
        },
    decreases pairs.len(),
{
    if pairs.len() == 0 {
        assert(pairs.push(p)[0] == p);
        assert(pairs.push(p).len() == 1);
    } else if pairs.len() == 1 {
        assert(pairs.push(p)[0] == pairs[0]);
        assert(pairs.push(p).skip(1) =~= seq![p]);
        assert(spec_joined(seq![p]) == spec_pair_bytes(seq![p][0]));
        assert(seq![p][0] == p);
        assert(spec_joined(pairs.push(p)) == spec_pair_bytes(pairs[0]) + seq![0x26u8]
            + spec_pair_bytes(p));
    } else {
        assert(pairs.push(p)[0] == pairs[0]);
        assert(pairs.push(p).skip(1) =~= pairs.skip(1).push(p));
        lemma_joined_snoc(pairs.skip(1), p);
        assert(spec_joined(pairs.push(p)) =~= spec_joined(pairs) + seq![0x26u8]
            + spec_pair_bytes(p));
    }
}

/// Encodes optional query fields into query-string bytes.  A field
/// whose value is unset is omitted entirely.
pub fn encode_query(fields: &Vec<(String, Option<String>)>) -> (r: Vec<u8>)
    ensures
        r@ == spec_query_encoding(field_views(fields@)),
{
    let ghost fv = field_views(fields@);
    let mut out: Vec<u8> = Vec::new();
    let mut any: bool = false;
    let mut i: usize = 0;
    proof {
        assert(fv.take(0) =~= Seq::<(Seq<char>, Option<Seq<char>>)>::empty());
    }
    while i < fields.len()
        invariant
            i <= fields.len(),
            fv == field_views(fields@),
            fv.len() == fields@.len(),
            any <==> spec_present_pairs(fv.take(i as int)).len() != 0,
            out@ == spec_joined(spec_present_pairs(fv.take(i as int))),
        decreases fields.len() - i,
    {
        let ghost prefix = spec_present_pairs(fv.take(i as int));
        proof {
            assert(fv.take(i + 1) =~= fv.take(i as int).push(fv[i as int]));
            assert(fv[i as int] == (
                fields@[i as int].0@,
                match fields@[i as int].1 {
                    Option::Some(v) => Option::Some(v@),
                    Option::None => Option::None::<Seq<char>>,
                },
            ));
            lemma_present_pairs_snoc(fv.take(i as int), fv[i as int]);
        }
        match &fields[i].1 {
            Option::Some(v) => {
                let ghost p = (fields@[i as int].0@, v@);
                proof {
                    assert(spec_present_pairs(fv.take(i + 1)) =~= prefix.push(p));
                    lemma_joined_snoc(prefix, p);
                }
                if any {
                    out.push(0x26);
                }
                let kenc = percent_encode(fields[i].0.as_str().as_bytes());
                push_bytes(&mut out, kenc.as_slice());
                out.push(0x3d);
                let venc = percent_encode(v.as_str().as_bytes());
                push_bytes(&mut out, venc.as_slice());
                proof {
                    if prefix.len() == 0 {
                        assert(out@ =~= encoded_value_bytes(p.0) + seq![0x3du8]
                            + encoded_value_bytes(p.1));
                    } else {
                        assert(out@ =~= spec_joined(prefix) + seq![0x26u8] + (encoded_value_bytes(
                            p.0,
                        ) + seq![0x3du8] + encoded_value_bytes(p.1)));
                        assert(spec_joined(prefix) + seq![0x26u8] + (encoded_value_bytes(p.0)
                            + seq![0x3du8] + encoded_value_bytes(p.1)) =~= spec_joined(prefix)
                            + seq![0x26u8] + spec_pair_bytes(p));
                    }
                }
                any = true;
            },
            Option::None => {
                proof {
                    assert(spec_present_pairs(fv.take(i + 1)) =~= prefix);
                }
            },
        }
        i = i + 1;
    }
    proof {
        assert(fv.take(fv.len() as int) =~= fv);
    }
    out
}

/// Index of the first occurrence of `sep`, or the length when absent.
pub open spec fn spec_find(bytes: Seq<u8>, sep: u8) -> int
    decreases bytes.len(),
{
    if bytes.len() == 0 {
        0
    } else if bytes[0] == sep {
        0
    } else {
        1 + spec_find(bytes.skip(1), sep)
    }
}

/// `spec_find` returns the first index holding `sep`, or the length.
pub proof fn lemma_find_characterization(bytes: Seq<u8>, sep: u8)
    ensures
        0 <= spec_find(bytes, sep) <= bytes.len(),
        spec_find(bytes, sep) < bytes.len() ==> bytes[spec_find(bytes, sep)] == sep,
        forall|j: int| 0 <= j < spec_find(bytes, sep) ==> bytes[j] != sep,
    decreases bytes.len(),
{
    if bytes.len() == 0 {
    } else if bytes[0] == sep {
    } else {
        lemma_find_characterization(bytes.skip(1), sep);
        assert forall|j: int| 0 <= j < spec_find(bytes, sep) implies bytes[j] != sep by {
            if j > 0 {
                assert(bytes.skip(1)[j - 1] == bytes[j]);
            }
        }
    }
}

/// The parts of a byte string split on `sep`; always at least one part.
pub open spec fn spec_split(bytes: Seq<u8>, sep: u8) -> Seq<Seq<u8>>
    decreases bytes.len(),
{
    if bytes.len() == 0 {
        seq![Seq::<u8>::empty()]
    } else if bytes[0] == sep {
        seq![Seq::<u8>::empty()] + spec_split(bytes.skip(1), sep)
    } else {
        let r = spec_split(bytes.skip(1), sep);
        seq![seq![bytes[0]] + r[0]] + r.skip(1)
    }
}

pub proof fn lemma_split_nonempty(bytes: Seq<u8>, sep: u8)
    ensures
        spec_split(bytes, sep).len() >= 1,
    decreases bytes.len(),
{
    if bytes.len() == 0 {
    } else {
        lemma_split_nonempty(bytes.skip(1), sep);
    }
}

/// The percent-decoding of one query key or value, `+` meaning a space.
pub open spec fn spec_decoded_component(b: Seq<u8>) -> Option<Seq<char>> {
    match percent_decoding(b, true) {
        Option::None => Option::None,
        Option::Some(d) => if valid_utf8(d) {
            Option::Some(decode_utf8(d))
        } else {
            Option::None
        },
    }
}

/// The pair parsed from one non-empty part: key before the first `=`,
/// value after it, the empty value when no `=` occurs.
pub open spec fn spec_parse_pair(part: Seq<u8>) -> Option<(Seq<char>, Seq<char>)> {
    let k = spec_find(part, 0x3d);
    let key = spec_decoded_component(part.take(k));
    let val = if k == part.len() {
        spec_decoded_component(Seq::empty())
    } else {
        spec_decoded_component(part.skip(k + 1))
    };
    match (key, val) {
        (Option::Some(kc), Option::Some(vc)) => Option::Some((kc, vc)),
        _ => Option::None,
    }
}

/// The pairs parsed from split parts; empty parts are dropped.
pub open spec fn spec_parse_pairs(parts: Seq<Seq<u8>>) -> Option<Seq<(Seq<char>, Seq<char>)>>
    decreases parts.len(),
{
    if parts.len() == 0 {
        Option::Some(Seq::empty())
    } else if parts[0].len() == 0 {
        spec_parse_pairs(parts.skip(1))
    } else {
        match (spec_parse_pair(parts[0]), spec_parse_pairs(parts.skip(1))) {
            (Option::Some(p), Option::Some(r)) => Option::Some(seq![p] + r),
            _ => Option::None,
        }
    }
}

/// The key/value pairs of a query string, or `None` when some part is
/// unparseable.
pub open spec fn spec_query_decoding(bytes: Seq<u8>) -> Option<Seq<(Seq<char>, Seq<char>)>> {
    spec_parse_pairs(spec_split(bytes, 0x26))
}

/// Splits query bytes on `&`.
fn split_query(bytes: &[u8]) -> (r: Vec<Vec<u8>>)
    ensures
        r@.map(|i: int, p: Vec<u8>| p@) == spec_split(bytes@, 0x26),
{
    let mut done: Vec<Vec<u8>> = Vec::new();
    let mut cur: Vec<u8> = Vec::new();
    let mut i: usize = 0;
    proof {
        lemma_split_nonempty(bytes@, 0x26);
        let s0 = spec_split(bytes@, 0x26);
        assert(bytes@.skip(0) =~= bytes@);
        assert(cur@ + s0[0] =~= s0[0]);
        assert(done@.map(|k: int, p: Vec<u8>| p@) + seq![s0[0]] + s0.skip(1) =~= s0);
    }
    while i < bytes.len()
        invariant
            i <= bytes.len(),
            spec_split(bytes@, 0x26) == done@.map(|k: int, p: Vec<u8>| p@) + seq![cur@ + spec_split(
                bytes@.skip(i as int),
                0x26,
            )[0]] + spec_split(bytes@.skip(i as int), 0x26).skip(1),
        decreases bytes.len() - i,
    {
        let ghost rest = bytes@.skip(i as int);
        let ghost srest = spec_split(rest, 0x26);
        let ghost dprev = done@.map(|k: int, p: Vec<u8>| p@);
        let ghost cprev = cur@;
        let ghost snext = spec_split(bytes@.skip(i + 1), 0x26);
        proof {
            assert(rest[0] == bytes@[i as int]);
            assert(rest.skip(1) =~= bytes@.skip(i + 1));
            lemma_split_nonempty(bytes@.skip(i + 1), 0x26);
        }
        let b = bytes[i];
        if b == 0x26 {
            done.push(cur);
            cur = Vec::new();
            proof {
                assert(srest =~= seq![Seq::<u8>::empty()] + snext);
                assert(srest[0] =~= Seq::<u8>::empty());
                assert(cprev + srest[0] =~= cprev);
                assert(srest.skip(1) =~= snext);
                assert(done@.map(|k: int, p: Vec<u8>| p@) =~= dprev.push(cprev));
                assert(snext =~= seq![snext[0]] + snext.skip(1));
                assert(cur@ + snext[0] =~= snext[0]);
                assert(dprev + seq![cprev + srest[0]] + srest.skip(1) =~= dprev.push(cprev)
                    + seq![cur@ + snext[0]] + snext.skip(1));
            }
        } else {
            cur.push(b);
            proof {
                assert(srest =~= seq![seq![b] + snext[0]] + snext.skip(1));
                assert(srest[0] == seq![b] + snext[0]);
                assert(srest.skip(1) =~= snext.skip(1));
                assert(cprev + (seq![b] + snext[0]) =~= cur@ + snext[0]);
                assert(dprev + seq![cprev + srest[0]] + srest.skip(1) =~= dprev + seq![cur@
                    + snext[0]] + snext.skip(1));
            }
        }
        i = i + 1;
    }
    proof {
        assert(bytes@.skip(bytes@.len() as int) =~= Seq::<u8>::empty());
        assert(spec_split(Seq::<u8>::empty(), 0x26) == seq![Seq::<u8>::empty()]);
        assert(cur@ + Seq::<u8>::empty() =~= cur@);
        assert(spec_split(Seq::<u8>::empty(), 0x26).skip(1) =~= Seq::<Seq<u8>>::empty());
        assert(done@.map(|k: int, p: Vec<u8>| p@) + seq![cur@] + Seq::<Seq<u8>>::empty()
            =~= done@.map(|k: int, p: Vec<u8>| p@).push(cur@));
        assert(done@.push(cur).map(|k: int, p: Vec<u8>| p@) =~= done@.map(
            |k: int, p: Vec<u8>| p@,
        ).push(cur@));
    }
    done.push(cur);
    done
}

/// Decodes one query component.
fn decode_component(b: &[u8]) -> (r: Option<String>)
    ensures
        match r {
            Option::Some(s) => spec_decoded_component(b@) == Option::Some(s@),
            Option::None => spec_decoded_component(b@) is None,
        },
{
    match percent_decode(b, true) {
        Option::None => None,
        Option::Some(d) => utf8_string(d),
    }
}

/// Parses one non-empty query part into its key/value pair.
fn parse_pair(part: &Vec<u8>) -> (r: Option<(String, String)>)
    ensures
        match r {
            Option::Some(p) => spec_parse_pair(part@) == Option::Some((p.0@, p.1@)),
            Option::None => spec_parse_pair(part@) is None,
        },
{
    proof {
        lemma_find_characterization(part@, 0x3d);
    }
    let mut k: usize = 0;
    while k < part.len() && part[k as usize] != 0x3d
        invariant
            0 <= k <= part.len(),
            forall|j: int| 0 <= j < k ==> part@[j] != 0x3d,
        decreases part.len() - k,
    {
        k = k + 1;
    }
    proof {
        if k < part.len() {
            assert(part@[k as int] == 0x3d);
        }
        assert(spec_find(part@, 0x3d) == k) by {
            lemma_find_characterization(part@, 0x3d);
            if spec_find(part@, 0x3d) < k {
                assert(part@[spec_find(part@, 0x3d)] != 0x3d);
            }
            if k < spec_find(part@, 0x3d) {
                assert(part@[k as int] != 0x3d);
            }
        }
    }
    let mut key_bytes: Vec<u8> = Vec::new();
    let mut i: usize = 0;
    while i < k
        invariant
            i <= k <= part@.len(),
            key_bytes@ == part@.take(k as int).take(i as int),
        decreases k - i,
    {
        key_bytes.push(part[i]);
        proof {
            assert(part@.take(k as int).take(i + 1) =~= part@.take(k as int).take(i as int).push(
                part@[i as int],
            ));
        }
        i = i + 1;
    }
    proof {
        assert(part@.take(k as int).take(k as int) =~= part@.take(k as int));
    }
    let mut val_bytes: Vec<u8> = Vec::new();
    if k < part.len() {
        let mut i2: usize = k + 1;
        while i2 < part.len()
            invariant
                k + 1 <= i2 <= part@.len(),
                val_bytes@ == part@.skip(k + 1).take(i2 - (k + 1)),
            decreases part.len() - i2,
        {
            val_bytes.push(part[i2]);
            proof {
                assert(part@.skip(k + 1)[i2 - (k + 1)] == part@[i2 as int]);
                assert(part@.skip(k + 1).take(i2 + 1 - (k + 1)) =~= part@.skip(k + 1).take(
                    i2 - (k + 1),
                ).push(part@[i2 as int]));
            }
            i2 = i2 + 1;
        }
        proof {
            assert(part@.skip(k + 1).take(part@.len() - (k + 1)) =~= part@.skip(k + 1));
        }
    } else {
        proof {
            assert(val_bytes@ =~= Seq::<u8>::empty());
        }
    }
    let key = match decode_component(key_bytes.as_slice()) {
        Option::Some(s) => s,
        Option::None => {
            return None;
        },
    };
    let val = match decode_component(val_bytes.as_slice()) {
        Option::Some(s) => s,
        Option::None => {
            return None;
        },
    };
    Some((key, val))
}

/// Decodes query-string bytes into key/value pairs; `None` when some
/// part is unparseable.
pub fn decode_query(bytes: &[u8]) -> (r: Option<Vec<(String, String)>>)
    ensures
        match r {
            Option::Some(ps) => spec_query_decoding(bytes@) == Option::Some(
                ps@.map(|i: int, p: (String, String)| (p.0@, p.1@)),
            ),
            Option::None => spec_query_decoding(bytes@) is None,
        },
{
    let parts = split_query(bytes);
    let ghost pview = parts@.map(|i: int, p: Vec<u8>| p@);
    let mut out: Vec<(String, String)> = Vec::new();
    let mut i: usize = 0;
    let ghost oview = |i: int, p: (String, String)| (p.0@, p.1@);
    proof {
        assert(pview.skip(0) =~= pview);
        if spec_parse_pairs(pview) is Some {
            assert(out@.map(oview) + spec_parse_pairs(pview).unwrap() =~= spec_parse_pairs(
                pview,
            ).unwrap());
        }
    }
    while i < parts.len()
        invariant
            i <= parts.len(),
            pview == parts@.map(|k: int, p: Vec<u8>| p@),
            pview == spec_split(bytes@, 0x26),
            pview.len() == parts@.len(),
            oview == (|k: int, p: (String, String)| (p.0@, p.1@)),
            spec_parse_pairs(pview) is Some <==> spec_parse_pairs(pview.skip(i as int)) is Some,
            spec_parse_pairs(pview.skip(i as int)) is Some ==> spec_parse_pairs(pview).unwrap()
                == out@.map(oview) + spec_parse_pairs(pview.skip(i as int)).unwrap(),
        decreases parts.len() - i,
    {
        let ghost rest = pview.skip(i as int);
        let ghost prev = out@.map(oview);
        proof {
            assert(rest[0] == pview[i as int]);
            assert(pview[i as int] == parts@[i as int]@);
            assert(rest.skip(1) =~= pview.skip(i + 1));
        }
        if parts[i].len() > 0 {
            match parse_pair(&parts[i]) {
                Option::Some(p) => {
                    out.push(p);
                    proof {
                        let tail = spec_parse_pairs(pview.skip(i + 1));
                        assert(out@.map(oview) =~= prev.push((p.0@, p.1@)));
                        if tail is Some {
                            assert(spec_parse_pairs(rest).unwrap() == seq![(p.0@, p.1@)]
                                + tail.unwrap());
                            assert(prev + (seq![(p.0@, p.1@)] + tail.unwrap()) =~= out@.map(oview)
                                + tail.unwrap());
                        }
                    }
                },
                Option::None => {
                    assert(spec_parse_pairs(rest) is None);
                    return None;
                },
            }
        } else {
            proof {
                assert(rest[0].len() == 0);
                assert(spec_parse_pairs(rest) == spec_parse_pairs(pview.skip(i + 1)));
            }
        }
        i = i + 1;
    }
    proof {
        assert(pview.skip(pview.len() as int) =~= Seq::<Seq<u8>>::empty());
        assert(out@.map(oview) + Seq::<(Seq<char>, Seq<char>)>::empty() =~= out@.map(oview));
    }
    Some(out)
}

/// A request without query fields encodes to the empty query string.
pub proof fn lemma_query_encoding_empty()
    ensures
        spec_query_encoding(Seq::<(Seq<char>, Option<Seq<char>>)>::empty()) == Seq::<u8>::empty(),
{
    assert(spec_present_pairs(Seq::<(Seq<char>, Option<Seq<char>>)>::empty())
        == Seq::<(Seq<char>, Seq<char>)>::empty());
}

/// The value of the first pair under `name`, or `None` when no pair
/// carries it.
pub open spec fn spec_pairs_lookup(pairs: Seq<(Seq<char>, Seq<char>)>, name: Seq<char>) -> Option<
    Seq<char>,
>
    decreases pairs.len(),
{
    if pairs.len() == 0 {
        Option::None
    } else if pairs[0].0 == name {
        Option::Some(pairs[0].1)
    } else {
        spec_pairs_lookup(pairs.skip(1), name)
    }
}

/// Looks a decoded query pair up by name.
pub fn pairs_lookup(pairs: &Vec<(String, String)>, name: &str) -> (r: Option<String>)
    ensures
        ({
            let pv = pairs@.map(|i: int, p: (String, String)| (p.0@, p.1@));
            match r {
                Option::Some(v) => spec_pairs_lookup(pv, name@) == Option::Some(v@),
                Option::None => spec_pairs_lookup(pv, name@) is None,
            }
        }),
{
    let ghost pv = pairs@.map(|i: int, p: (String, String)| (p.0@, p.1@));
    let mut i: usize = 0;
    proof {
        assert(pv.skip(0) =~= pv);
    }
    while i < pairs.len()
        invariant
            i <= pairs.len(),
            pv == pairs@.map(|k: int, p: (String, String)| (p.0@, p.1@)),
            pv.len() == pairs@.len(),
            spec_pairs_lookup(pv, name@) == spec_pairs_lookup(pv.skip(i as int), name@),
        decreases pairs.len() - i,
    {
        let ghost rest = pv.skip(i as int);
        proof {
            assert(rest[0] == pv[i as int]);
            assert(rest.skip(1) =~= pv.skip(i + 1));
        }
        if pairs[i].0.eq(&String::from_str(name)) {
            return Some(pairs[i].1.clone());
        }
        i = i + 1;
    }
    proof {
        assert(pv.skip(pv.len() as int) =~= Seq::<(Seq<char>, Seq<char>)>::empty());
    }
    None
}

proof fn lemma_split_no_sep(b: Seq<u8>, sep: u8)
    requires
        forall|i: int| 0 <= i < b.len() ==> b[i] != sep,
    ensures
        spec_split(b, sep) == seq![b],
    decreases b.len(),
{
    if b.len() == 0 {
        assert(seq![Seq::<u8>::empty()] =~~= seq![b]);
    } else {
        assert(forall|i: int| 0 <= i < b.skip(1).len() ==> b.skip(1)[i] == b[i + 1]);
        lemma_split_no_sep(b.skip(1), sep);
        let r = spec_split(b.skip(1), sep);
        assert(r[0] == b.skip(1));
        assert(seq![b[0]] + b.skip(1) =~= b);
        assert(r.skip(1) =~= Seq::<Seq<u8>>::empty());
        assert(seq![seq![b[0]] + r[0]] + r.skip(1) =~= seq![b]);
    }
}

proof fn lemma_split_concat(a: Seq<u8>, rest: Seq<u8>, sep: u8)
    requires
        forall|i: int| 0 <= i < a.len() ==> a[i] != sep,
    ensures
        spec_split(a + seq![sep] + rest, sep) == seq![a] + spec_split(rest, sep),
    decreases a.len(),
{
    let whole = a + seq![sep] + rest;
    if a.len() == 0 {
        assert(whole[0] == sep);
        assert(whole.skip(1) =~= rest);
        assert(seq![Seq::<u8>::empty()] + spec_split(rest, sep) =~~= seq![a] + spec_split(
            rest,
            sep,
        ));
    } else {
        assert(whole[0] == a[0]);
        assert(whole[0] != sep);
        assert(forall|i: int| 0 <= i < a.skip(1).len() ==> a.skip(1)[i] == a[i + 1]);
        assert(whole.skip(1) =~= a.skip(1) + seq![sep] + rest);
        lemma_split_concat(a.skip(1), rest, sep);
        let r = spec_split(whole.skip(1), sep);
        assert(r == seq![a.skip(1)] + spec_split(rest, sep));
        assert(r[0] == a.skip(1));
        assert(seq![whole[0]] + r[0] =~= a);
        assert(r.skip(1) =~= spec_split(rest, sep));
        assert(seq![seq![whole[0]] + r[0]] + r.skip(1) =~= seq![a] + spec_split(rest, sep));
    }
}

/// No byte of a percent-encoded value is `&`, `=` or `+`.
proof fn lemma_encoded_value_no_separators(v: Seq<char>)
    ensures
        forall|i: int|
            0 <= i < encoded_value_bytes(v).len() ==> encoded_value_bytes(v)[i] != 0x26
                && encoded_value_bytes(v)[i] != 0x3d,
{
    lemma_percent_encoding_bytes(encode_utf8(v));
    assert(forall|i: int|
        0 <= i < encoded_value_bytes(v).len() ==> is_unreserved(
            #[trigger] encoded_value_bytes(v)[i],
        ) || encoded_value_bytes(v)[i] == 0x25);
    assert(!is_unreserved(0x26) && !is_unreserved(0x3d));
}

/// Decoding one percent-encoded component gives the text back.
proof fn lemma_decoded_component_of_encoded(v: Seq<char>)
    ensures
        spec_decoded_component(encoded_value_bytes(v)) == Option::Some(v),
{
    lemma_percent_round_trip(encode_utf8(v), true);
    vstd::utf8::encode_utf8_valid_utf8(v);
    vstd::utf8::encode_utf8_decode_utf8(v);
}

/// Parsing the encoded bytes of one pair gives the pair back.
proof fn lemma_parse_pair_of_pair_bytes(p: (Seq<char>, Seq<char>))
    ensures
        spec_pair_bytes(p).len() >= 1,
        forall|i: int|
            0 <= i < spec_pair_bytes(p).len() ==> #[trigger] spec_pair_bytes(p)[i] != 0x26,
        spec_parse_pair(spec_pair_bytes(p)) == Option::Some(p),
{
    let kb = encoded_value_bytes(p.0);
    let vb = encoded_value_bytes(p.1);
    let part = spec_pair_bytes(p);
    lemma_encoded_value_no_separators(p.0);
    lemma_encoded_value_no_separators(p.1);
    assert(part.len() == kb.len() + 1 + vb.len());
    assert(part[kb.len() as int] == 0x3d);
    assert(forall|i: int| 0 <= i < kb.len() ==> part[i] == kb[i]);
    assert(forall|i: int|
        kb.len() < i < part.len() ==> #[trigger] part[i] == vb[i - kb.len() - 1]);
    assert(forall|i: int| 0 <= i < part.len() ==> #[trigger] part[i] != 0x26);
    lemma_find_characterization(part, 0x3d);
    let k = spec_find(part, 0x3d);
    assert(k == kb.len()) by {
        if k < kb.len() {
            assert(part[k] == 0x3d);
            assert(part[k] == kb[k]);
        }
        if k > kb.len() {
            assert(part[kb.len() as int] != 0x3d);
        }
    }
    assert(part.take(k) =~= kb);
    assert(part.skip(k + 1) =~= vb);
    lemma_decoded_component_of_encoded(p.0);
    lemma_decoded_component_of_encoded(p.1);
}

/// Parsing the split of joined pairs gives the pairs back.
proof fn lemma_parse_pairs_of_joined(pairs: Seq<(Seq<char>, Seq<char>)>)
    ensures
        spec_parse_pairs(spec_split(spec_joined(pairs), 0x26)) == Option::Some(pairs),
    decreases pairs.len(),
{
    if pairs.len() == 0 {
        assert(spec_joined(pairs) == Seq::<u8>::empty());
        let parts = spec_split(Seq::<u8>::empty(), 0x26);
        assert(parts == seq![Seq::<u8>::empty()]);
        assert(parts[0].len() == 0);
        assert(parts.skip(1) =~= Seq::<Seq<u8>>::empty());
        assert(spec_parse_pairs(Seq::<Seq<u8>>::empty()) == Option::Some(
            Seq::<(Seq<char>, Seq<char>)>::empty(),
        ));
        assert(spec_parse_pairs(parts) == spec_parse_pairs(parts.skip(1)));
        assert(pairs =~= Seq::<(Seq<char>, Seq<char>)>::empty());
    } else if pairs.len() == 1 {
        let pb = spec_pair_bytes(pairs[0]);
        lemma_parse_pair_of_pair_bytes(pairs[0]);
        lemma_split_no_sep(pb, 0x26);
        let parts = spec_split(pb, 0x26);
        assert(parts == seq![pb]);
        assert(parts[0] == pb);
        assert(parts.skip(1) =~= Seq::<Seq<u8>>::empty());
        assert(spec_parse_pairs(parts.skip(1)) == Option::Some(
            Seq::<(Seq<char>, Seq<char>)>::empty(),
        ));
        assert(seq![pairs[0]] + Seq::<(Seq<char>, Seq<char>)>::empty() =~= pairs);
    } else {
        let pb = spec_pair_bytes(pairs[0]);
        let rest_bytes = spec_joined(pairs.skip(1));
        assert(spec_joined(pairs) == pb + seq![0x26u8] + rest_bytes);
        lemma_parse_pair_of_pair_bytes(pairs[0]);
        lemma_split_concat(pb, rest_bytes, 0x26);
        let parts = spec_split(spec_joined(pairs), 0x26);
        assert(parts == seq![pb] + spec_split(rest_bytes, 0x26));
        assert(parts[0] == pb);
        lemma_split_nonempty(rest_bytes, 0x26);
        assert(parts.skip(1) =~= spec_split(rest_bytes, 0x26));
        lemma_parse_pairs_of_joined(pairs.skip(1));
        assert(seq![pairs[0]] + pairs.skip(1) =~= pairs);
    }
}

/// Round trip: decoding an encoded query gives exactly the present
/// fields, in declaration order, for query fields of any content.
pub proof fn lemma_query_round_trip(fields: Seq<(Seq<char>, Option<Seq<char>>)>)
    ensures
        spec_query_decoding(spec_query_encoding(fields)) == Option::Some(
            spec_present_pairs(fields),
        ),
{
    lemma_parse_pairs_of_joined(spec_present_pairs(fields));
}

/// Every key among the present pairs is the name of a field that was
/// set.
proof fn lemma_present_pairs_keys(fields: Seq<(Seq<char>, Option<Seq<char>>)>, name: Seq<char>)
    requires
        forall|j: int|
            0 <= j < fields.len() && (#[trigger] fields[j].1) is Some ==> fields[j].0 != name,
    ensures
        forall|k: int|
            0 <= k < spec_present_pairs(fields).len() ==> (#[trigger] spec_present_pairs(
                fields,
            )[k]).0 != name,
    decreases fields.len(),
{
    if fields.len() == 0 {
    } else {
        assert(forall|j: int|
            0 <= j < fields.skip(1).len() ==> fields.skip(1)[j] == fields[j + 1]);
        lemma_present_pairs_keys(fields.skip(1), name);
        let rest = spec_present_pairs(fields.skip(1));
        match fields[0].1 {
            Option::Some(v) => {
                assert(fields[0].1 is Some);
                assert(fields[0].0 != name);
                assert(spec_present_pairs(fields) == seq![(fields[0].0, v)] + rest);
                assert forall|k: int|
                    0 <= k < spec_present_pairs(fields).len() implies (spec_present_pairs(
                    fields,
                )[k]).0 != name by {
                    if k > 0 {
                        assert(spec_present_pairs(fields)[k] == rest[k - 1]);
                    }
                }
            },
            Option::None => {
                assert(spec_present_pairs(fields) == rest);
            },
        }
    }
}

/// Query omission: when a field with a name no set field shares is
/// itself unset, decoding the encoded query yields no pair under that
/// name — the key is absent entirely, not present with an empty value.
pub proof fn lemma_query_omission(fields: Seq<(Seq<char>, Option<Seq<char>>)>, idx: int)
    requires
        0 <= idx < fields.len(),
        fields[idx].1 is None,
        forall|j: int|
            0 <= j < fields.len() && j != idx ==> (#[trigger] fields[j]).0 != fields[idx].0,
    ensures
        spec_query_decoding(spec_query_encoding(fields)) == Option::Some(
            spec_present_pairs(fields),
        ),
        forall|k: int|
            0 <= k < spec_present_pairs(fields).len() ==> (#[trigger] spec_present_pairs(
                fields,
            )[k]).0 != fields[idx].0,
{
    lemma_query_round_trip(fields);
    lemma_present_pairs_keys(fields, fields[idx].0);
}

} // verus!
