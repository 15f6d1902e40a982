//! `GET /_matrix/client/*/rooms/{roomId}/state/{eventType}/{stateKey}`
//!
//! Get state events associated with a given key.

use vstd::prelude::*;
use vstd::string::StringExecFns;
use vstd::utf8::encode_utf8;
use crate::json::JsonVal;
use crate::marshal::MarshalError;
use crate::marshal::ParseError;
use crate::marshal::WireRequest;
use crate::marshal::build;
use crate::marshal::header_views;
use crate::marshal::parse;
use crate::marshal::spec_headers;
use crate::marshal::spec_incoming_values;
use crate::marshal::spec_trimmed_base;
use crate::metadata::AuthScheme;
use crate::metadata::EndpointMetadata;
use crate::metadata::History;
use crate::metadata::HistoryEntry;
use crate::metadata::HistoryEntryView;
use crate::metadata::Method;
use crate::codec::spec_rendered_path;
use crate::codec::string_views;
use crate::query::spec_pairs_lookup;
use crate::query::spec_query_decoding;
use crate::query::spec_query_encoding;
use crate::query::pairs_lookup;
use crate::resolver::spec_resolve;
use crate::template::PathTemplate;
use crate::template::Segment;
use crate::template::SegmentView;
use crate::template::spec_placeholder_count;
use crate::version::ProtocolVersion;
use crate::version::SupportedVersions;
use crate::version::VersionToken;

verus! {

/// The template this endpoint had before protocol version 1.1.
pub open spec fn spec_r0_template() -> Seq<SegmentView> {
    seq![
        SegmentView::Literal("_matrix"@),
        SegmentView::Literal("client"@),
        SegmentView::Literal("r0"@),
        SegmentView::Literal("rooms"@),
        SegmentView::Parameter("room_id"@),
        SegmentView::Literal("state"@),
        SegmentView::Parameter("event_type"@),
        SegmentView::Parameter("state_key"@),
    ]
}

/// The template this endpoint has from protocol version 1.1 on.
pub open spec fn spec_v3_template() -> Seq<SegmentView> {
    seq![
        SegmentView::Literal("_matrix"@),
        SegmentView::Literal("client"@),
        SegmentView::Literal("v3"@),
        SegmentView::Literal("rooms"@),
        SegmentView::Parameter("room_id"@),
        SegmentView::Literal("state"@),
        SegmentView::Parameter("event_type"@),
        SegmentView::Parameter("state_key"@),
    ]
}

/// This endpoint's version history.
pub open spec fn spec_history() -> Seq<HistoryEntryView> {
    seq![
        HistoryEntryView {
            token: VersionToken::Stable(ProtocolVersion { major: 1, minor: 0 }),
            template: spec_r0_template(),
        },
        HistoryEntryView {
            token: VersionToken::Stable(ProtocolVersion { major: 1, minor: 1 }),
            template: spec_v3_template(),
        },
    ]
}

fn r0_template() -> (r: PathTemplate)
    ensures
        r@ == spec_r0_template(),
{
    let mut segments: Vec<Segment> = Vec::new();
    segments.push(crate::template::seg_lit("_matrix"));
    segments.push(crate::template::seg_lit("client"));
    segments.push(crate::template::seg_lit("r0"));
    segments.push(crate::template::seg_lit("rooms"));
    segments.push(crate::template::seg_param("room_id"));
    segments.push(crate::template::seg_lit("state"));
    segments.push(crate::template::seg_param("event_type"));
    segments.push(crate::template::seg_param("state_key"));
    let r = PathTemplate { segments };
    proof {
        assert(r@ =~= spec_r0_template());
    }
    r
}

fn v3_template() -> (r: PathTemplate)
    ensures
        r@ == spec_v3_template(),
{
    let mut segments: Vec<Segment> = Vec::new();
    segments.push(crate::template::seg_lit("_matrix"));
    segments.push(crate::template::seg_lit("client"));
    segments.push(crate::template::seg_lit("v3"));
    segments.push(crate::template::seg_lit("rooms"));
    segments.push(crate::template::seg_param("room_id"));
    segments.push(crate::template::seg_lit("state"));
    segments.push(crate::template::seg_param("event_type"));
    segments.push(crate::template::seg_param("state_key"));
    let r = PathTemplate { segments };
    proof {
        assert(r@ =~= spec_v3_template());
    }
    r
}

/// This endpoint's description: `GET`, not rate limited, access token
/// required, stable since 1.0 under `r0`, since 1.1 under `v3`.
pub fn metadata() -> (m: EndpointMetadata)
    ensures
        m.method == Method::Get,
        m.rate_limited == false,
        m.authentication == AuthScheme::AccessTokenRequired,
        m.history@ == spec_history(),
        m.wf(),
{
    let mut entries: Vec<HistoryEntry> = Vec::new();
    entries.push(
        HistoryEntry {
            token: VersionToken::Stable(ProtocolVersion::new(1, 0)),
            template: r0_template(),
        },
    );
    entries.push(
        HistoryEntry {
            token: VersionToken::Stable(ProtocolVersion::new(1, 1)),
            template: v3_template(),
        },
    );
    let history = History::new(entries);
    proof {
        assert(history@ =~= spec_history());
    }
    EndpointMetadata::new(Method::Get, false, AuthScheme::AccessTokenRequired, history)
}

/// Request type for the `get_state_events_for_key` endpoint.
pub struct Request {
    /// The room to look up the state for.
    pub room_id: String,
    /// The type of state to look up.
    pub event_type: String,
    /// The key of the state to look up.
    pub state_key: String,
    /// Optional parameter choosing between the event content and the
    /// full state event.
    pub format: Option<String>,
}

impl Request {
    /// Creates a new `Request` with the given room ID, event type and
    /// state key.
    pub fn new(room_id: String, event_type: String, state_key: String) -> (r: Self)
        ensures
            r.room_id == room_id,
            r.event_type == event_type,
            r.state_key == state_key,
            r.format is None,
    {
        Request { room_id, event_type, state_key, format: None }
    }

    /// Builds the wire request that asks a server for this state.
    ///
    /// The path carries the room ID, event type and state key in that
    /// order; the query carries `format` only when it is set; the
    /// endpoint requires an access token and sends no body.
    pub fn try_into_http_request(
        self,
        base_url: &str,
        access_token: Option<&str>,
        allow_unstable: bool,
        supported: &SupportedVersions,
    ) -> (r: Result<WireRequest, MarshalError>)
        ensures
            ({
                let resolved = spec_resolve(spec_history(), allow_unstable, supported.versions@);
                let missing = access_token is None;
                match r {
                    Result::Err(MarshalError::NoMatchingVersion) => resolved is None,
                    Result::Err(MarshalError::MissingCredential) => resolved is Some && missing,
                    Result::Err(MarshalError::EncodingError) => resolved is Some && !missing
                        && spec_placeholder_count(resolved.unwrap()) > 3,
                    Result::Ok(w) => resolved is Some && !missing && spec_placeholder_count(
                        resolved.unwrap(),
                    ) <= 3 && {
                        &&& w.method == Method::Get
                        &&& encode_utf8(w.path@) == spec_rendered_path(
                            resolved.unwrap(),
                            seq![self.room_id@, self.event_type@, self.state_key@],
                        )
                        &&& encode_utf8(w.query@) == spec_query_encoding(
                            seq![
                                (
                                    "format"@,
                                    match self.format {
                                        Option::Some(f) => Option::Some(f@),
                                        Option::None => Option::None,
                                    },
                                ),
                            ],
                        )
                        &&& w.url@ == spec_trimmed_base(base_url@) + w.path@ + (
                        if w.query@.len() > 0 {
                            seq!['?'] + w.query@
                        } else {
                            Seq::<char>::empty()
                        })
                        &&& header_views(w.headers@) == spec_headers(
                            AuthScheme::AccessTokenRequired,
                            match access_token {
                                Option::Some(t) => Option::Some(t@),
                                Option::None => Option::None,
                            },
                            false,
                        )
                        &&& w.body@.len() == 0
                    },
                }
            }),
    {
        let m = metadata();
        let mut path_values: Vec<String> = Vec::new();
        path_values.push(self.room_id);
        path_values.push(self.event_type);
        path_values.push(self.state_key);
        let mut query_fields: Vec<(String, Option<String>)> = Vec::new();
        query_fields.push((String::from_str("format"), self.format));
        proof {
            assert(string_views(path_values@) =~= seq![
                self.room_id@,
                self.event_type@,
                self.state_key@,
            ]);
            assert(crate::query::field_views(query_fields@) =~= seq![
                (
                    "format"@,
                    match self.format {
                        Option::Some(f) => Option::Some(f@),
                        Option::None => Option::None::<Seq<char>>,
                    },
                ),
            ]);
        }
        build(&m, &path_values, &query_fields, None, base_url, access_token, allow_unstable, supported)
    }

    /// Reconstructs the typed request from the pieces of an incoming
    /// wire request: the path segments the router extracted, the query
    /// string, and whether a credential accompanied the request.
    ///
    /// The segments must match one of the history's templates in
    /// number, with one missing trailing segment tolerated as an empty
    /// state key; three values must result; the access token this
    /// endpoint requires must be present; the query must decode, the
    /// `format` field being optional.
    pub fn try_from_http_request(
        path_segments: &Vec<String>,
        query: &str,
        has_credential: bool,
    ) -> (r: Result<Request, ParseError>)
        ensures
            ({
                let values = spec_incoming_values(spec_history(), string_views(path_segments@));
                let missing = !has_credential;
                let qd = spec_query_decoding(encode_utf8(query@));
                match r {
                    Result::Err(ParseError::MalformedPath) => values is None || (values is Some
                        && values.unwrap().len() != 3),
                    Result::Err(ParseError::AuthenticationRequired) => values is Some && missing,
                    Result::Err(ParseError::QueryDecodingError) => values is Some && !missing
                        && qd is None,
                    Result::Err(ParseError::BodyDecodingError) => false,
                    Result::Ok(req) => values is Some && values.unwrap().len() == 3 && !missing
                        && qd is Some && {
                        &&& req.room_id@ == values.unwrap()[0]
                        &&& req.event_type@ == values.unwrap()[1]
                        &&& req.state_key@ == values.unwrap()[2]
                        &&& (match req.format {
                            Option::Some(f) => spec_pairs_lookup(qd.unwrap(), "format"@)
                                == Option::Some(f@),
                            Option::None => spec_pairs_lookup(qd.unwrap(), "format"@) is None,
                        })
                    },
                }
            }),
    {
        let m = metadata();
        let parts = match parse(&m, path_segments, query, has_credential) {
            Result::Ok(p) => p,
            Result::Err(e) => {
                return Err(e);
            },
        };
        let mut values = parts.path_values;
        if values.len() != 3 {
            return Err(ParseError::MalformedPath);
        }
        let format = pairs_lookup(&parts.query_pairs, "format");
        let state_key = match values.pop() {
            Option::Some(v) => v,
            Option::None => {
                proof {
                    assert(false);
                }
                String::new()
            },
        };
        let event_type = match values.pop() {
            Option::Some(v) => v,
            Option::None => {
                proof {
                    assert(false);
                }
                String::new()
            },
        };
        let room_id = match values.pop() {
            Option::Some(v) => v,
            Option::None => {
                proof {
                    assert(false);
                }
                String::new()
            },
        };
        Ok(Request { room_id, event_type, state_key, format })
    }
}

/// Response type for the `get_state_events_for_key` endpoint.
pub struct Response {
    /// The content of the state event, when the content form was
    /// asked for.
    pub content: Option<JsonVal>,
    /// The full state event, when the event form was asked for.
    pub event: Option<JsonVal>,
}

impl Response {
    /// Creates a new `Response` with the given content and event.
    pub fn new(content: JsonVal, event: JsonVal) -> (r: Self)
        ensures
            r.content is Some && r.content.unwrap()@ == content@,
            r.event is Some && r.event.unwrap()@ == event@,
    {
        Response { content: Some(content), event: Some(event) }
    }
}

} // verus!
