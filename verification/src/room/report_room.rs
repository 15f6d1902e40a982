//! `POST /_matrix/client/*/rooms/{roomId}/report`
//!
//! Reports an abusive room.

use vstd::prelude::*;
use vstd::string::StringExecFns;
use vstd::utf8::encode_utf8;
use crate::json::JsonV;
use crate::json::JsonVal;
use crate::json::json_field_views;
use crate::json::json_object_bytes;
use crate::json::json_object_encoding;
use crate::marshal::MarshalError;
use crate::marshal::WireRequest;
use crate::marshal::build;
use crate::marshal::header_views;
use crate::marshal::spec_headers;
use crate::marshal::spec_trimmed_base;
use crate::metadata::AuthScheme;
use crate::metadata::EndpointMetadata;
use crate::metadata::History;
use crate::metadata::HistoryEntry;
use crate::metadata::HistoryEntryView;
use crate::metadata::Method;
use crate::codec::spec_rendered_path;
use crate::codec::string_views;
use crate::query::spec_query_encoding;
use crate::resolver::spec_resolve;
use crate::template::PathTemplate;
use crate::template::Segment;
use crate::template::SegmentView;
use crate::template::seg_lit;
use crate::template::seg_param;
use crate::template::spec_placeholder_count;
use crate::version::ProtocolVersion;
use crate::version::SupportedVersions;
use crate::version::VersionToken;

verus! {

/// The unstable template of this endpoint.
pub open spec fn spec_unstable_template() -> Seq<SegmentView> {
    seq![
        SegmentView::Literal("_matrix"@),
        SegmentView::Literal("client"@),
        SegmentView::Literal("unstable"@),
        SegmentView::Literal("org.matrix.msc4151"@),
        SegmentView::Literal("rooms"@),
        SegmentView::Parameter("room_id"@),
        SegmentView::Literal("report"@),
    ]
}

/// The stable template of this endpoint.
pub open spec fn spec_v3_template() -> Seq<SegmentView> {
    seq![
        SegmentView::Literal("_matrix"@),
        SegmentView::Literal("client"@),
        SegmentView::Literal("v3"@),
        SegmentView::Literal("rooms"@),
        SegmentView::Parameter("room_id"@),
        SegmentView::Literal("report"@),
    ]
}

/// This endpoint's version history.
pub open spec fn spec_history() -> Seq<HistoryEntryView> {
    seq![
        HistoryEntryView { token: VersionToken::Unstable, template: spec_unstable_template() },
        HistoryEntryView {
            token: VersionToken::Stable(ProtocolVersion { major: 1, minor: 0 }),
            template: spec_v3_template(),
        },
    ]
}

/// This endpoint's description: `POST`, not rate limited, access token
/// required, unstable shape on request, stable since 1.0.
pub fn metadata() -> (m: EndpointMetadata)
    ensures
        m.method == Method::Post,
        m.rate_limited == false,
        m.authentication == AuthScheme::AccessTokenRequired,
        m.history@ == spec_history(),
        m.wf(),
{
    let mut u: Vec<Segment> = Vec::new();
    u.push(seg_lit("_matrix"));
    u.push(seg_lit("client"));
    u.push(seg_lit("unstable"));
    u.push(seg_lit("org.matrix.msc4151"));
    u.push(seg_lit("rooms"));
    u.push(seg_param("room_id"));
    u.push(seg_lit("report"));
    let ut = PathTemplate { segments: u };
    let mut v3: Vec<Segment> = Vec::new();
    v3.push(seg_lit("_matrix"));
    v3.push(seg_lit("client"));
    v3.push(seg_lit("v3"));
    v3.push(seg_lit("rooms"));
    v3.push(seg_param("room_id"));
    v3.push(seg_lit("report"));
    let v3t = PathTemplate { segments: v3 };
    proof {
        assert(ut@ =~= spec_unstable_template());
        assert(v3t@ =~= spec_v3_template());
    }
    let mut entries: Vec<HistoryEntry> = Vec::new();
    entries.push(HistoryEntry { token: VersionToken::Unstable, template: ut });
    entries.push(
        HistoryEntry { token: VersionToken::Stable(ProtocolVersion::new(1, 0)), template: v3t },
    );
    let history = History::new(entries);
    proof {
        assert(history@ =~= spec_history());
    }
    EndpointMetadata::new(Method::Post, false, AuthScheme::AccessTokenRequired, history)
}

/// Request type for the `report_room` endpoint.
pub struct Request {
    /// The room ID being reported.
    pub room_id: String,
    /// Reason to report the room; may be unset.
    pub reason: Option<String>,
}

/// The body fields a report carries: the reason when one is given,
/// nothing otherwise.
pub open spec fn spec_body_fields(reason: Option<Seq<char>>) -> Seq<(Seq<char>, JsonV)> {
    match reason {
        Option::Some(t) => seq![("reason"@, JsonV::Str(t))],
        Option::None => Seq::empty(),
    }
}

impl Request {
    /// Creates a new `Request` with the given room ID and reason.
    pub fn new(room_id: String, reason: Option<String>) -> (r: Self)
        ensures
            r.room_id == room_id,
            r.reason == reason,
    {
        Request { room_id, reason }
    }

    /// Builds the wire request that reports this room.
    ///
    /// The path carries the room ID; there is no query; the body is the
    /// JSON object with the reason, or the empty object when no reason
    /// is given; the endpoint requires an access token.
    pub fn try_into_http_request(
        self,
        base_url: &str,
        access_token: Option<&str>,
        allow_unstable: bool,
        supported: &SupportedVersions,
    ) -> (r: Result<WireRequest, MarshalError>)
        ensures
            ({
                let resolved = spec_resolve(spec_history(), allow_unstable, supported.versions@);
                let missing = access_token is None;
                match r {
                    Result::Err(MarshalError::NoMatchingVersion) => resolved is None,
                    Result::Err(MarshalError::MissingCredential) => resolved is Some && missing,
                    Result::Err(MarshalError::EncodingError) => resolved is Some && !missing
                        && spec_placeholder_count(resolved.unwrap()) > 1,
                    Result::Ok(w) => resolved is Some && !missing && spec_placeholder_count(
                        resolved.unwrap(),
                    ) <= 1 && {
                        &&& w.method == Method::Post
                        &&& encode_utf8(w.path@) == spec_rendered_path(
                            resolved.unwrap(),
                            seq![self.room_id@],
                        )
                        &&& w.query@.len() == 0
                        &&& w.url@ == spec_trimmed_base(base_url@) + w.path@
                        &&& header_views(w.headers@) == spec_headers(
                            AuthScheme::AccessTokenRequired,
                            match access_token {
                                Option::Some(t) => Option::Some(t@),
                                Option::None => Option::None,
                            },
                            true,
                        )
                        &&& w.body@ == json_object_encoding(
                            spec_body_fields(
                                match self.reason {
                                    Option::Some(t) => Option::Some(t@),
                                    Option::None => Option::None,
                                },
                            ),
                        )
                    },
                }
            }),
    {
        let m = metadata();
        let mut path_values: Vec<String> = Vec::new();
        path_values.push(self.room_id);
        let query_fields: Vec<(String, Option<String>)> = Vec::new();
        let mut body_fields: Vec<(String, JsonVal)> = Vec::new();
        match self.reason {
            Option::Some(t) => {
                body_fields.push((String::from_str("reason"), JsonVal::Str(t)));
            },
            Option::None => {},
        }
        proof {
            assert(string_views(path_values@) =~= seq![self.room_id@]);
            assert(crate::query::field_views(query_fields@) =~= Seq::<
                (Seq<char>, Option<Seq<char>>),
            >::empty());
            assert(json_field_views(body_fields@) =~= spec_body_fields(
                match self.reason {
                    Option::Some(t) => Option::Some(t@),
                    Option::None => Option::None::<Seq<char>>,
                },
            ));
            crate::query::lemma_query_encoding_empty();
        }
        let body = json_object_bytes(&body_fields);
        let r = build(
            &m,
            &path_values,
            &query_fields,
            Some(body),
            base_url,
            access_token,
            allow_unstable,
            supported,
        );
        proof {
            match &r {
                Result::Ok(w) => {
                    assert(encode_utf8(w.query@) =~= Seq::<u8>::empty());
                    assert(w.query@.len() == 0) by {
                        if w.query@.len() > 0 {
                            vstd::utf8::char_is_scalar(w.query@[0]);
                            assert(encode_utf8(w.query@).len() > 0);
                        }
                    }
                    assert(w.url@ =~= spec_trimmed_base(base_url@) + w.path@);
                },
                Result::Err(_) => {},
            }
        }
        r
    }
}

/// Response type for the `report_room` endpoint.
pub struct Response {}

impl Response {
    /// Creates an empty `Response`.
    pub fn new() -> (r: Self) {
        Response {  }
    }
}

} // verus!
