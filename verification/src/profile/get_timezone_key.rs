//! `GET /_matrix/client/*/profile/{userId}/m.tz`
//!
//! Get the timezone key of a user.

use vstd::prelude::*;
use crate::metadata::AuthScheme;
use crate::metadata::EndpointMetadata;
use crate::metadata::History;
use crate::metadata::HistoryEntry;
use crate::metadata::HistoryEntryView;
use crate::metadata::Method;
use crate::template::PathTemplate;
use crate::template::Segment;
use crate::template::SegmentView;
use crate::template::seg_lit;
use crate::template::seg_param;
use crate::version::VersionToken;

verus! {

/// The unstable template of this endpoint; the timezone key itself is
/// a literal final segment.
pub open spec fn spec_unstable_template() -> Seq<SegmentView> {
    seq![
        SegmentView::Literal("_matrix"@),
        SegmentView::Literal("client"@),
        SegmentView::Literal("unstable"@),
        SegmentView::Literal("uk.tcpip.msc4133"@),
        SegmentView::Literal("profile"@),
        SegmentView::Parameter("user_id"@),
        SegmentView::Literal("us.cloke.msc4175.tz"@),
    ]
}

/// This endpoint's version history: the unstable shape only.
pub open spec fn spec_history() -> Seq<HistoryEntryView> {
    seq![HistoryEntryView { token: VersionToken::Unstable, template: spec_unstable_template() }]
}

fn unstable_template() -> (r: PathTemplate)
    ensures
        r@ == spec_unstable_template(),
{
    let mut u: Vec<Segment> = Vec::new();
    u.push(seg_lit("_matrix"));
    u.push(seg_lit("client"));
    u.push(seg_lit("unstable"));
    u.push(seg_lit("uk.tcpip.msc4133"));
    u.push(seg_lit("profile"));
    u.push(seg_param("user_id"));
    u.push(seg_lit("us.cloke.msc4175.tz"));
    let r = PathTemplate { segments: u };
    proof {
        assert(r@ =~= spec_unstable_template());
    }
    r
}

/// This endpoint's description: `GET`, not rate limited, no
/// authentication, unstable shape only.
pub fn metadata() -> (m: EndpointMetadata)
    ensures
        m.method == Method::Get,
        m.rate_limited == false,
        m.authentication == AuthScheme::NoAuth,
        m.history@ == spec_history(),
        m.wf(),
{
    let mut entries: Vec<HistoryEntry> = Vec::new();
    entries.push(HistoryEntry { token: VersionToken::Unstable, template: unstable_template() });
    let history = History::new(entries);
    proof {
        assert(history@ =~= spec_history());
    }
    EndpointMetadata::new(Method::Get, false, AuthScheme::NoAuth, history)
}

/// Request type for the `get_timezone_key` endpoint.
pub struct Request {
    /// The user whose timezone will be retrieved.
    pub user_id: String,
}

impl Request {
    /// Creates a new `Request` with the given user ID.
    pub fn new(user_id: String) -> (r: Self)
        ensures
            r.user_id == user_id,
    {
        Request { user_id }
    }
}

/// Response type for the `get_timezone_key` endpoint.
pub struct Response {
    /// The timezone the user is in, if set.
    pub tz: Option<String>,
}

impl Response {
    /// Creates a new `Response` with the given timezone.
    pub fn new(tz: Option<String>) -> (r: Self)
        ensures
            r.tz == tz,
    {
        Response { tz }
    }
}

impl Default for Response {
    fn default() -> (r: Self)
        ensures
            r.tz is None,
    {
        Response { tz: None }
    }
}

} // verus!
