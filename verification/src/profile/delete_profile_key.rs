//! `DELETE /_matrix/client/*/profile/{user_id}/{key_name}`
//!
//! Deletes a custom profile key from the user.

use vstd::prelude::*;
use vstd::utf8::encode_utf8;
use crate::codec::string_views;
use crate::json::JsonVal;
use crate::json::json_field_views;
use crate::json::json_object_fields;
use crate::json::json_object_parsing;
use crate::marshal::ParseError;
use crate::marshal::parse;
use crate::marshal::spec_incoming_values;
use crate::metadata::AuthScheme;
use crate::query::spec_query_decoding;
use crate::metadata::EndpointMetadata;
use crate::metadata::History;
use crate::metadata::HistoryEntry;
use crate::metadata::HistoryEntryView;
use crate::metadata::Method;
use crate::template::PathTemplate;
use crate::template::Segment;
use crate::template::SegmentView;
use crate::template::seg_lit;
use crate::template::seg_param;
use crate::version::VersionToken;

verus! {

/// The unstable template of this endpoint.
pub open spec fn spec_unstable_template() -> Seq<SegmentView> {
    seq![
        SegmentView::Literal("_matrix"@),
        SegmentView::Literal("client"@),
        SegmentView::Literal("unstable"@),
        SegmentView::Literal("uk.tcpip.msc4133"@),
        SegmentView::Literal("profile"@),
        SegmentView::Parameter("user_id"@),
        SegmentView::Parameter("key_name"@),
    ]
}

/// This endpoint's version history: the unstable shape only.
pub open spec fn spec_history() -> Seq<HistoryEntryView> {
    seq![HistoryEntryView { token: VersionToken::Unstable, template: spec_unstable_template() }]
}

/// This endpoint's description: `DELETE`, rate limited, access token
/// required, unstable shape only.
pub fn metadata() -> (m: EndpointMetadata)
    ensures
        m.method == Method::Delete,
        m.rate_limited == true,
        m.authentication == AuthScheme::AccessTokenRequired,
        m.history@ == spec_history(),
        m.wf(),
{
    let mut u: Vec<Segment> = Vec::new();
    u.push(seg_lit("_matrix"));
    u.push(seg_lit("client"));
    u.push(seg_lit("unstable"));
    u.push(seg_lit("uk.tcpip.msc4133"));
    u.push(seg_lit("profile"));
    u.push(seg_param("user_id"));
    u.push(seg_param("key_name"));
    let ut = PathTemplate { segments: u };
    proof {
        assert(ut@ =~= spec_unstable_template());
    }
    let mut entries: Vec<HistoryEntry> = Vec::new();
    entries.push(HistoryEntry { token: VersionToken::Unstable, template: ut });
    let history = History::new(entries);
    proof {
        assert(history@ =~= spec_history());
    }
    EndpointMetadata::new(Method::Delete, true, AuthScheme::AccessTokenRequired, history)
}

/// Request type for the `delete_profile_key` endpoint.
pub struct Request {
    /// The user whose profile key will be deleted.
    pub user_id: String,
    /// The name of the key to delete.
    pub key: String,
    /// The key-value pair the deletion body carries.
    pub kv_pair: Vec<(String, JsonVal)>,
}

impl Request {
    /// Creates a new `Request` with the given user ID, key name and
    /// body fields.
    pub fn new(user_id: String, key: String, kv_pair: Vec<(String, JsonVal)>) -> (r: Self)
        ensures
            r.user_id == user_id,
            r.key == key,
            r.kv_pair == kv_pair,
    {
        Request { user_id, key, kv_pair }
    }

    /// Reconstructs the typed request from the pieces of an incoming
    /// wire request: the path segments the router extracted, the query
    /// string, whether a credential accompanied the request, and the
    /// body bytes, which must hold a JSON object.
    ///
    /// Failures, in the order they are checked: `MalformedPath` when
    /// the segments do not yield the user ID and key; then
    /// `AuthenticationRequired`, then `QueryDecodingError` as the
    /// endpoint demands; `BodyDecodingError` when the body is not a
    /// JSON object.
    pub fn try_from_http_request(
        path_segments: &Vec<String>,
        query: &str,
        has_credential: bool,
        body: &[u8],
    ) -> (r: Result<Request, ParseError>)
        ensures
            ({
                let values = spec_incoming_values(spec_history(), string_views(path_segments@));
                let missing = !has_credential;
                let qd = spec_query_decoding(encode_utf8(query@));
                let fields = json_object_parsing(body@);
                match r {
                    Result::Err(ParseError::MalformedPath) => values is None || (values is Some
                        && values.unwrap().len() != 2),
                    Result::Err(ParseError::AuthenticationRequired) => values is Some && missing,
                    Result::Err(ParseError::QueryDecodingError) => values is Some && !missing
                        && qd is None,
                    Result::Err(ParseError::BodyDecodingError) => values is Some
                        && values.unwrap().len() == 2 && !missing && qd is Some && fields is None,
                    Result::Ok(req) => values is Some && values.unwrap().len() == 2 && !missing
                        && qd is Some && fields is Some && {
                        &&& req.user_id@ == values.unwrap()[0]
                        &&& req.key@ == values.unwrap()[1]
                        &&& json_field_views(req.kv_pair@) == fields.unwrap()
                    },
                }
            }),
    {
        let m = metadata();
        let parts = match parse(&m, path_segments, query, has_credential) {
            Result::Ok(p) => p,
            Result::Err(e) => {
                return Err(e);
            },
        };
        let mut values = parts.path_values;
        if values.len() != 2 {
            return Err(ParseError::MalformedPath);
        }
        let kv_pair = match json_object_fields(body) {
            Option::Some(f) => f,
            Option::None => {
                return Err(ParseError::BodyDecodingError);
            },
        };
        let key = match values.pop() {
            Option::Some(v) => v,
            Option::None => {
                proof {
                    assert(false);
                }
                String::new()
            },
        };
        let user_id = match values.pop() {
            Option::Some(v) => v,
            Option::None => {
                proof {
                    assert(false);
                }
                String::new()
            },
        };
        Ok(Request { user_id, key, kv_pair })
    }
}

/// Response type for the `delete_profile_key` endpoint.
pub struct Response {}

impl Response {
    /// Creates an empty `Response`.
    pub fn new() -> (r: Self) {
        Response {  }
    }
}

} // verus!
