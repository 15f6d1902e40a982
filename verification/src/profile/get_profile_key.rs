//! `GET /_matrix/client/*/profile/{user_id}/{key_name}`
//!
//! Gets a custom profile key from the user.

use vstd::prelude::*;
use crate::json::JsonVal;
use crate::metadata::AuthScheme;
use crate::metadata::EndpointMetadata;
use crate::metadata::History;
use crate::metadata::HistoryEntry;
use crate::metadata::HistoryEntryView;
use crate::metadata::Method;
use crate::template::PathTemplate;
use crate::template::Segment;
use crate::template::SegmentView;
use crate::template::seg_lit;
use crate::template::seg_param;
use crate::version::VersionToken;

verus! {

/// The unstable template of this endpoint.
pub open spec fn spec_unstable_template() -> Seq<SegmentView> {
    seq![
        SegmentView::Literal("_matrix"@),
        SegmentView::Literal("client"@),
        SegmentView::Literal("unstable"@),
        SegmentView::Literal("uk.tcpip.msc4133"@),
        SegmentView::Literal("profile"@),
        SegmentView::Parameter("user_id"@),
        SegmentView::Parameter("key_name"@),
    ]
}

/// This endpoint's version history: the unstable shape only.
pub open spec fn spec_history() -> Seq<HistoryEntryView> {
    seq![HistoryEntryView { token: VersionToken::Unstable, template: spec_unstable_template() }]
}

/// This endpoint's description: `GET`, not rate limited, no
/// authentication, unstable shape only.
pub fn metadata() -> (m: EndpointMetadata)
    ensures
        m.method == Method::Get,
        m.rate_limited == false,
        m.authentication == AuthScheme::NoAuth,
        m.history@ == spec_history(),
        m.wf(),
{
    let mut u: Vec<Segment> = Vec::new();
    u.push(seg_lit("_matrix"));
    u.push(seg_lit("client"));
    u.push(seg_lit("unstable"));
    u.push(seg_lit("uk.tcpip.msc4133"));
    u.push(seg_lit("profile"));
    u.push(seg_param("user_id"));
    u.push(seg_param("key_name"));
    let ut = PathTemplate { segments: u };
    proof {
        assert(ut@ =~= spec_unstable_template());
    }
    let mut entries: Vec<HistoryEntry> = Vec::new();
    entries.push(HistoryEntry { token: VersionToken::Unstable, template: ut });
    let history = History::new(entries);
    proof {
        assert(history@ =~= spec_history());
    }
    EndpointMetadata::new(Method::Get, false, AuthScheme::NoAuth, history)
}

/// Request type for the `get_profile_key` endpoint.
pub struct Request {
    /// The user whose profile key will be retrieved.
    pub user_id: String,
    /// The name of the key to retrieve.
    pub key: String,
}

impl Request {
    /// Creates a new `Request` with the given user ID and key name.
    pub fn new(user_id: String, key: String) -> (r: Self)
        ensures
            r.user_id == user_id,
            r.key == key,
    {
        Request { user_id, key }
    }
}

/// Response type for the `get_profile_key` endpoint.
pub struct Response {
    /// The key's value, as the JSON fields of the response object.
    pub value: Vec<(String, JsonVal)>,
}

impl Response {
    /// Creates a new `Response` with the given value.
    pub fn new(value: Vec<(String, JsonVal)>) -> (r: Self)
        ensures
            r.value == value,
    {
        Response { value }
    }
}

impl Default for Response {
    fn default() -> (r: Self)
        ensures
            r.value@.len() == 0,
    {
        Response { value: Vec::new() }
    }
}

} // verus!
