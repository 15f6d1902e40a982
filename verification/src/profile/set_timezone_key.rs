//! `PUT /_matrix/client/*/profile/{userId}/m.tz`
//!
//! Set the timezone key of the user.

use vstd::prelude::*;
use crate::metadata::AuthScheme;
use crate::metadata::EndpointMetadata;
use crate::metadata::History;
use crate::metadata::HistoryEntry;
use crate::metadata::HistoryEntryView;
use crate::metadata::Method;
use crate::template::PathTemplate;
use crate::template::Segment;
use crate::template::SegmentView;
use crate::template::seg_lit;
use crate::template::seg_param;
use crate::version::VersionToken;

verus! {

/// The unstable template of this endpoint; the timezone key itself is
/// a literal final segment.
pub open spec fn spec_unstable_template() -> Seq<SegmentView> {
    seq![
        SegmentView::Literal("_matrix"@),
        SegmentView::Literal("client"@),
        SegmentView::Literal("unstable"@),
        SegmentView::Literal("uk.tcpip.msc4133"@),
        SegmentView::Literal("profile"@),
        SegmentView::Parameter("user_id"@),
        SegmentView::Literal("us.cloke.msc4175.tz"@),
    ]
}

/// This endpoint's version history: the unstable shape only.
pub open spec fn spec_history() -> Seq<HistoryEntryView> {
    seq![HistoryEntryView { token: VersionToken::Unstable, template: spec_unstable_template() }]
}

/// This endpoint's description: `PUT`, rate limited, access token
/// required, unstable shape only.
pub fn metadata() -> (m: EndpointMetadata)
    ensures
        m.method == Method::Put,
        m.rate_limited == true,
        m.authentication == AuthScheme::AccessTokenRequired,
        m.history@ == spec_history(),
        m.wf(),
{
    let mut u: Vec<Segment> = Vec::new();
    u.push(seg_lit("_matrix"));
    u.push(seg_lit("client"));
    u.push(seg_lit("unstable"));
    u.push(seg_lit("uk.tcpip.msc4133"));
    u.push(seg_lit("profile"));
    u.push(seg_param("user_id"));
    u.push(seg_lit("us.cloke.msc4175.tz"));
    let ut = PathTemplate { segments: u };
    proof {
        assert(ut@ =~= spec_unstable_template());
    }
    let mut entries: Vec<HistoryEntry> = Vec::new();
    entries.push(HistoryEntry { token: VersionToken::Unstable, template: ut });
    let history = History::new(entries);
    proof {
        assert(history@ =~= spec_history());
    }
    EndpointMetadata::new(Method::Put, true, AuthScheme::AccessTokenRequired, history)
}

/// Request type for the `set_timezone_key` endpoint.
pub struct Request {
    /// The user whose timezone will be set.
    pub user_id: String,
    /// The timezone to set, or unset to carry none.
    pub tz: Option<String>,
}

impl Request {
    /// Creates a new `Request` with the given user ID and timezone.
    pub fn new(user_id: String, tz: Option<String>) -> (r: Self)
        ensures
            r.user_id == user_id,
            r.tz == tz,
    {
        Request { user_id, tz }
    }
}

/// Response type for the `set_timezone_key` endpoint.
pub struct Response {}

impl Response {
    /// Creates an empty `Response`.
    pub fn new() -> (r: Self) {
        Response {  }
    }
}

} // verus!
