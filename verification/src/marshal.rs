//! The outgoing and incoming marshalers: building a complete wire
//! request from typed values, and reconstructing typed values from the
//! pieces of an incoming wire request.
//!
//! Both are pure transforms over immutable inputs: no I/O happens here,
//! and a failed call leaves nothing behind.

use vstd::prelude::*;
use vstd::utf8::encode_utf8;
use crate::codec::decode_segments;
use crate::codec::encode_path;
use crate::codec::spec_decoded_values;
use crate::codec::spec_rendered_path;
use crate::codec::string_views;
use crate::codec::lemma_rendered_path_valid;
use crate::metadata::AuthScheme;
use crate::metadata::EndpointMetadata;
use crate::metadata::HistoryEntryView;
use crate::metadata::Method;
use crate::query::decode_query;
use crate::query::encode_query;
use crate::query::field_views;
use crate::query::spec_query_decoding;
use crate::query::spec_query_encoding;
use crate::resolver::resolve;
use crate::resolver::spec_resolve;
use crate::template::spec_placeholder_count;
use crate::text::lemma_ascii_bytes_valid;
use crate::text::utf8_string;
use crate::version::SupportedVersions;
use vstd::string::StringExecFns;
use vstd::string::StrSliceExecFns;

verus! {

/// Failure of the outgoing marshaler; no wire request is produced.
#[derive(Clone, Copy, PartialEq, Eq, Structural, Debug)]
pub enum MarshalError {
    /// No history entry satisfies the requested and supported versions.
    NoMatchingVersion,
    /// The endpoint requires an access token and none was supplied.
    MissingCredential,
    /// The resolved template asks for more path values than the request
    /// supplies.
    EncodingError,
}

/// Failure of the incoming marshaler.
#[derive(Clone, Copy, PartialEq, Eq, Structural, Debug)]
pub enum ParseError {
    /// Arity mismatch beyond the one-segment tolerance, or an
    /// unparseable path segment.
    MalformedPath,
    /// The endpoint requires a credential and none accompanied the
    /// request.
    AuthenticationRequired,
    /// The query string is unparseable.
    QueryDecodingError,
    /// The body is unparseable.
    BodyDecodingError,
}

/// A complete outgoing wire request: everything a transport needs to
/// send, and nothing it has to compute.
pub struct WireRequest {
    pub method: Method,
    /// The resolved, percent-encoded absolute path.
    pub path: String,
    /// The encoded query string; empty when every optional field is
    /// unset.
    pub query: String,
    /// Base URL, path and query joined into one target.
    pub url: String,
    /// Header name/value pairs, in order.
    pub headers: Vec<(String, String)>,
    /// The serialized body; empty when the endpoint sends none.
    pub body: Vec<u8>,
}

/// The base URL with one trailing `/` removed, as joined with the
/// absolute path.
pub open spec fn spec_trimmed_base(b: Seq<char>) -> Seq<char> {
    if b.len() > 0 && b[b.len() - 1] == '/' {
        b.take(b.len() - 1)
    } else {
        b
    }
}

/// The headers of an outgoing request: a JSON content type when a body
/// is sent, and a bearer token when the endpoint requires one or
/// optionally takes the one supplied.
pub open spec fn spec_headers(
    auth: AuthScheme,
    token: Option<Seq<char>>,
    has_body: bool,
) -> Seq<(Seq<char>, Seq<char>)> {
    let content = if has_body {
        seq![("Content-Type"@, "application/json"@)]
    } else {
        Seq::empty()
    };
    let bearer = match auth {
        AuthScheme::AccessTokenRequired => seq![("Authorization"@, "Bearer "@ + token.unwrap())],
        AuthScheme::AccessTokenOptional => match token {
            Option::Some(t) => seq![("Authorization"@, "Bearer "@ + t)],
            Option::None => Seq::empty(),
        },
        AuthScheme::NoAuth => Seq::empty(),
        AuthScheme::ServerSignatureRequired => Seq::empty(),
    };
    content + bearer
}

/// The header views of a wire request.
pub open spec fn header_views(hs: Seq<(String, String)>) -> Seq<(Seq<char>, Seq<char>)> {
    hs.map(|i: int, h: (String, String)| (h.0@, h.1@))
}

/// Builds a complete wire request from typed values.
///
/// The template is resolved from the endpoint's history and the
/// caller's supported versions; path values are encoded against it in
/// order, with values beyond its placeholder count dropped; query
/// fields are encoded with unset fields omitted; the body bytes are
/// carried as given, under a JSON content type.
///
/// Failures, in the order they are checked: `NoMatchingVersion` when
/// resolution fails; `MissingCredential` when the endpoint requires an
/// access token and none is supplied; `EncodingError` when the resolved
/// template asks for more path values than were supplied.  No wire
/// request is produced on any failure.
pub fn build(
    metadata: &EndpointMetadata,
    path_values: &Vec<String>,
    query_fields: &Vec<(String, Option<String>)>,
    body: Option<Vec<u8>>,
    base_url: &str,
    access_token: Option<&str>,
    allow_unstable: bool,
    supported: &SupportedVersions,
) -> (r: Result<WireRequest, MarshalError>)
    ensures
        ({
            let resolved = spec_resolve(metadata.history@, allow_unstable, supported.versions@);
            let credential_missing = metadata.authentication == AuthScheme::AccessTokenRequired
                && access_token is None;
            match r {
                Result::Err(MarshalError::NoMatchingVersion) => resolved is None,
                Result::Err(MarshalError::MissingCredential) => resolved is Some
                    && credential_missing,
                Result::Err(MarshalError::EncodingError) => resolved is Some
                    && !credential_missing && spec_placeholder_count(resolved.unwrap())
                    > path_values@.len(),
                Result::Ok(w) => resolved is Some && !credential_missing
                    && spec_placeholder_count(resolved.unwrap()) <= path_values@.len() && {
                    &&& w.method == metadata.method
                    &&& encode_utf8(w.path@) == spec_rendered_path(
                        resolved.unwrap(),
                        string_views(path_values@),
                    )
                    &&& encode_utf8(w.query@) == spec_query_encoding(field_views(query_fields@))
                    &&& w.url@ == spec_trimmed_base(base_url@) + w.path@ + (if w.query@.len() > 0 {
                        seq!['?'] + w.query@
                    } else {
                        Seq::empty()
                    })
                    &&& header_views(w.headers@) == spec_headers(
                        metadata.authentication,
                        match access_token {
                            Option::Some(t) => Option::Some(t@),
                            Option::None => Option::None,
                        },
                        body is Some,
                    )
                    &&& w.body@ == (match body {
                        Option::Some(b) => b@,
                        Option::None => Seq::<u8>::empty(),
                    })
                },
            }
        }),
{
    let template = match resolve(&metadata.history, allow_unstable, supported) {
        Result::Ok(t) => t,
        Result::Err(_) => {
            return Err(MarshalError::NoMatchingVersion);
        },
    };
    let token_missing = access_token.is_none();
    if matches!(metadata.authentication, AuthScheme::AccessTokenRequired) && token_missing {
        return Err(MarshalError::MissingCredential);
    }
    let path_bytes = match encode_path(template, path_values) {
        Option::Some(b) => b,
        Option::None => {
            return Err(MarshalError::EncodingError);
        },
    };
    proof {
        lemma_rendered_path_valid(template@, string_views(path_values@));
    }
    let path = match utf8_string(path_bytes) {
        Option::Some(s) => s,
        Option::None => {
            return Err(MarshalError::EncodingError);
        },
    };
    proof {
        vstd::utf8::decode_utf8_encode_utf8(spec_rendered_path(
            template@,
            string_views(path_values@),
        ));
    }
    let query_bytes = encode_query(query_fields);
    proof {
        lemma_query_bytes_ascii(field_views(query_fields@));
        lemma_ascii_bytes_valid(spec_query_encoding(field_views(query_fields@)));
    }
    let query = match utf8_string(query_bytes) {
        Option::Some(s) => s,
        Option::None => {
            return Err(MarshalError::EncodingError);
        },
    };
    proof {
        vstd::utf8::decode_utf8_encode_utf8(spec_query_encoding(field_views(query_fields@)));
    }
    let base_len = base_url.unicode_len();
    let trimmed: &str = if base_len > 0 && base_url.get_char(base_len - 1) == '/' {
        base_url.substring_char(0, base_len - 1)
    } else {
        base_url
    };
    let mut url = trimmed.to_owned();
    url.append(path.as_str());
    if !query.as_str().is_empty() {
        url.append("?");
        url.append(query.as_str());
        proof {
            assert("?"@ =~= seq!['?']) by {
                reveal_strlit("?");
            }
            assert(url@ =~= spec_trimmed_base(base_url@) + path@ + (seq!['?'] + query@));
        }
    } else {
        proof {
            assert(url@ =~= spec_trimmed_base(base_url@) + path@ + Seq::<char>::empty());
        }
    }
    let mut headers: Vec<(String, String)> = Vec::new();
    let has_body = body.is_some();
    if has_body {
        headers.push((String::from_str("Content-Type"), String::from_str("application/json")));
    }
    let send_bearer = match metadata.authentication {
        AuthScheme::AccessTokenRequired => true,
        AuthScheme::AccessTokenOptional => access_token.is_some(),
        AuthScheme::NoAuth => false,
        AuthScheme::ServerSignatureRequired => false,
    };
    if send_bearer {
        let token = match access_token {
            Option::Some(t) => t,
            Option::None => {
                proof {
                    assert(false);
                }
                ""
            },
        };
        let value = String::from_str("Bearer ").concat(token);
        headers.push((String::from_str("Authorization"), value));
    }
    proof {
        let tok = match access_token {
            Option::Some(t) => Option::Some(t@),
            Option::None => Option::None::<Seq<char>>,
        };
        assert(header_views(headers@) =~= spec_headers(metadata.authentication, tok, has_body));
    }
    let body_bytes = match body {
        Option::Some(b) => b,
        Option::None => Vec::new(),
    };
    Ok(WireRequest { method: metadata.method, path, query, url, headers, body: body_bytes })
}

/// Every byte of an encoded query string is ASCII.
proof fn lemma_query_bytes_ascii(fields: Seq<(Seq<char>, Option<Seq<char>>)>)
    ensures
        forall|i: int|
            0 <= i < spec_query_encoding(fields).len() ==> #[trigger] spec_query_encoding(
                fields,
            )[i] < 0x80,
{
    lemma_joined_ascii(crate::query::spec_present_pairs(fields));
}

proof fn lemma_pair_bytes_ascii(p: (Seq<char>, Seq<char>))
    ensures
        forall|i: int|
            0 <= i < crate::query::spec_pair_bytes(p).len() ==> #[trigger] crate::query::spec_pair_bytes(
                p,
            )[i] < 0x80,
{
    crate::codec::lemma_encoded_value_ascii(p.0);
    crate::codec::lemma_encoded_value_ascii(p.1);
}

proof fn lemma_joined_ascii(pairs: Seq<(Seq<char>, Seq<char>)>)
    ensures
        forall|i: int|
            0 <= i < crate::query::spec_joined(pairs).len() ==> #[trigger] crate::query::spec_joined(
                pairs,
            )[i] < 0x80,
    decreases pairs.len(),
{
    if pairs.len() == 0 {
    } else if pairs.len() == 1 {
        lemma_pair_bytes_ascii(pairs[0]);
    } else {
        lemma_pair_bytes_ascii(pairs[0]);
        lemma_joined_ascii(pairs.skip(1));
        let pb = crate::query::spec_pair_bytes(pairs[0]);
        assert forall|i: int|
            0 <= i < crate::query::spec_joined(pairs).len() implies #[trigger] crate::query::spec_joined(
            pairs,
        )[i] < 0x80 by {
            if i < pb.len() {
                assert(crate::query::spec_joined(pairs)[i] == pb[i]);
            } else if i == pb.len() {
                assert(crate::query::spec_joined(pairs)[i] == 0x26);
            } else {
                assert(crate::query::spec_joined(pairs)[i] == crate::query::spec_joined(
                    pairs.skip(1),
                )[i - pb.len() - 1]);
            }
        }
    }
}

/// The typed pieces the incoming marshaler reconstructs: ordered path
/// parameter values and decoded query pairs.  Body decoding is the
/// per-endpoint definition's part.
pub struct IncomingParts {
    pub path_values: Vec<String>,
    pub query_pairs: Vec<(String, String)>,
}

/// Whether some history entry's template has exactly `n` placeholders.
pub open spec fn spec_history_arity_match(h: Seq<HistoryEntryView>, n: int) -> bool {
    exists|i: int| 0 <= i < h.len() && spec_placeholder_count(#[trigger] h[i].template) == n
}

/// The path parameter values an incoming request carries: its segments
/// decoded against any history template of matching arity, the last
/// parameter defaulting to the empty string when exactly one segment is
/// missing.
pub open spec fn spec_incoming_values(h: Seq<HistoryEntryView>, segs: Seq<Seq<char>>) -> Option<
    Seq<Seq<char>>,
> {
    if spec_history_arity_match(h, segs.len() as int) {
        spec_decoded_values(segs)
    } else if spec_history_arity_match(h, segs.len() as int + 1) {
        match spec_decoded_values(segs) {
            Option::Some(vs) => Option::Some(vs.push(Seq::empty())),
            Option::None => Option::None,
        }
    } else {
        Option::None
    }
}

/// Whether some history entry's template has exactly `n` placeholders.
fn history_arity_match(metadata: &EndpointMetadata, n: usize) -> (r: bool)
    ensures
        r == spec_history_arity_match(metadata.history@, n as int),
{
    let entries = &metadata.history.entries;
    proof {
        metadata.history.lemma_view();
    }
    let mut i: usize = 0;
    while i < entries.len()
        invariant
            i <= entries.len(),
            metadata.history@.len() == entries@.len(),
            forall|j: int|
                0 <= j < metadata.history@.len() ==> #[trigger] metadata.history@[j]
                    == entries@[j]@,
            forall|j: int|
                0 <= j < i ==> spec_placeholder_count(
                    (#[trigger] metadata.history@[j]).template,
                ) != n as int,
        decreases entries.len() - i,
    {
        if entries[i].template.placeholder_count() == n {
            proof {
                assert(spec_placeholder_count(metadata.history@[i as int].template) == n as int);
            }
            return true;
        }
        i = i + 1;
    }
    false
}

/// Reconstructs the typed pieces of an incoming wire request: decodes
/// the path segments against the endpoint's history with the
/// one-missing-trailing-segment tolerance, verifies that a credential
/// accompanies the request when the endpoint demands one, and decodes
/// the query string.
///
/// Failures, in the order they are checked: `MalformedPath` when no
/// history template matches the segment count under the tolerance or a
/// segment is unparseable; `AuthenticationRequired` when the endpoint
/// requires an access token and `has_credential` is unset;
/// `QueryDecodingError` when the query string is unparseable.
pub fn parse(
    metadata: &EndpointMetadata,
    path_segments: &Vec<String>,
    query: &str,
    has_credential: bool,
) -> (r: Result<IncomingParts, ParseError>)
    ensures
        ({
            let values = spec_incoming_values(metadata.history@, string_views(path_segments@));
            let credential_missing = metadata.authentication == AuthScheme::AccessTokenRequired
                && !has_credential;
            let query_pairs = spec_query_decoding(encode_utf8(query@));
            match r {
                Result::Err(ParseError::MalformedPath) => values is None,
                Result::Err(ParseError::AuthenticationRequired) => values is Some
                    && credential_missing,
                Result::Err(ParseError::QueryDecodingError) => values is Some
                    && !credential_missing && query_pairs is None,
                Result::Ok(parts) => values is Some && !credential_missing && query_pairs is Some
                    && string_views(parts.path_values@) == values.unwrap() && parts.query_pairs@.map(
                    |i: int, p: (String, String)| (p.0@, p.1@),
                ) == query_pairs.unwrap(),
                Result::Err(ParseError::BodyDecodingError) => false,
            }
        }),
{
    let n = path_segments.len();
    let exact = history_arity_match(metadata, n);
    let shim = if exact {
        false
    } else {
        history_arity_match_succ(metadata, n)
    };
    if !exact && !shim {
        return Err(ParseError::MalformedPath);
    }
    let mut values = match decode_segments(path_segments) {
        Option::Some(vs) => vs,
        Option::None => {
            return Err(ParseError::MalformedPath);
        },
    };
    if shim {
        values.push(String::new());
        proof {
            let ghost before = values@.drop_last();
            assert(string_views(values@) =~= string_views(before).push(values@.last()@));
        }
    }
    if matches!(metadata.authentication, AuthScheme::AccessTokenRequired) && !has_credential {
        return Err(ParseError::AuthenticationRequired);
    }
    let query_pairs = match decode_query(query.as_bytes()) {
        Option::Some(ps) => ps,
        Option::None => {
            return Err(ParseError::QueryDecodingError);
        },
    };
    Ok(IncomingParts { path_values: values, query_pairs })
}

/// Whether some history entry's template has exactly `n + 1`
/// placeholders.
fn history_arity_match_succ(metadata: &EndpointMetadata, n: usize) -> (r: bool)
    ensures
        r == spec_history_arity_match(metadata.history@, n as int + 1),
{
    let entries = &metadata.history.entries;
    proof {
        metadata.history.lemma_view();
    }
    let mut i: usize = 0;
    while i < entries.len()
        invariant
            i <= entries.len(),
            metadata.history@.len() == entries@.len(),
            forall|j: int|
                0 <= j < metadata.history@.len() ==> #[trigger] metadata.history@[j]
                    == entries@[j]@,
            forall|j: int|
                0 <= j < i ==> spec_placeholder_count(
                    (#[trigger] metadata.history@[j]).template,
                ) != n as int + 1,
        decreases entries.len() - i,
    {
        let c = entries[i].template.placeholder_count();
        if c > 0 && c - 1 == n {
            proof {
                assert(spec_placeholder_count(metadata.history@[i as int].template) == n as int
                    + 1);
            }
            return true;
        }
        i = i + 1;
    }
    false
}

} // verus!
