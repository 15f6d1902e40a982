//! `GET /_matrix/client/*/profile/{userId}`
//!
//! Get all profile information of a user.

use vstd::prelude::*;
use crate::metadata::AuthScheme;
use crate::metadata::EndpointMetadata;
use crate::metadata::History;
use crate::metadata::HistoryEntry;
use crate::metadata::HistoryEntryView;
use crate::metadata::Method;
use crate::template::PathTemplate;
use crate::template::Segment;
use crate::template::SegmentView;
use crate::template::seg_lit;
use crate::template::seg_param;
use crate::version::ProtocolVersion;
use crate::version::VersionToken;

verus! {

/// The unstable template of this endpoint.
pub open spec fn spec_unstable_template() -> Seq<SegmentView> {
    seq![
        SegmentView::Literal("_matrix"@),
        SegmentView::Literal("client"@),
        SegmentView::Literal("unstable"@),
        SegmentView::Literal("uk.tcpip.msc4133"@),
        SegmentView::Literal("profile"@),
        SegmentView::Parameter("user_id"@),
    ]
}

/// The template this endpoint had before protocol version 1.1.
pub open spec fn spec_r0_template() -> Seq<SegmentView> {
    seq![
        SegmentView::Literal("_matrix"@),
        SegmentView::Literal("client"@),
        SegmentView::Literal("r0"@),
        SegmentView::Literal("profile"@),
        SegmentView::Parameter("user_id"@),
    ]
}

/// The template this endpoint has from protocol version 1.1 on.
pub open spec fn spec_v3_template() -> Seq<SegmentView> {
    seq![
        SegmentView::Literal("_matrix"@),
        SegmentView::Literal("client"@),
        SegmentView::Literal("v3"@),
        SegmentView::Literal("profile"@),
        SegmentView::Parameter("user_id"@),
    ]
}

/// This endpoint's version history.
pub open spec fn spec_history() -> Seq<HistoryEntryView> {
    seq![
        HistoryEntryView { token: VersionToken::Unstable, template: spec_unstable_template() },
        HistoryEntryView {
            token: VersionToken::Stable(ProtocolVersion { major: 1, minor: 0 }),
            template: spec_r0_template(),
        },
        HistoryEntryView {
            token: VersionToken::Stable(ProtocolVersion { major: 1, minor: 1 }),
            template: spec_v3_template(),
        },
    ]
}

/// This endpoint's description: `GET`, not rate limited, no
/// authentication, unstable shape on request, stable since 1.0.
pub fn metadata() -> (m: EndpointMetadata)
    ensures
        m.method == Method::Get,
        m.rate_limited == false,
        m.authentication == AuthScheme::NoAuth,
        m.history@ == spec_history(),
        m.wf(),
{
    let mut u: Vec<Segment> = Vec::new();
    u.push(seg_lit("_matrix"));
    u.push(seg_lit("client"));
    u.push(seg_lit("unstable"));
    u.push(seg_lit("uk.tcpip.msc4133"));
    u.push(seg_lit("profile"));
    u.push(seg_param("user_id"));
    let ut = PathTemplate { segments: u };
    let mut r0: Vec<Segment> = Vec::new();
    r0.push(seg_lit("_matrix"));
    r0.push(seg_lit("client"));
    r0.push(seg_lit("r0"));
    r0.push(seg_lit("profile"));
    r0.push(seg_param("user_id"));
    let r0t = PathTemplate { segments: r0 };
    let mut v3: Vec<Segment> = Vec::new();
    v3.push(seg_lit("_matrix"));
    v3.push(seg_lit("client"));
    v3.push(seg_lit("v3"));
    v3.push(seg_lit("profile"));
    v3.push(seg_param("user_id"));
    let v3t = PathTemplate { segments: v3 };
    proof {
        assert(ut@ =~= spec_unstable_template());
        assert(r0t@ =~= spec_r0_template());
        assert(v3t@ =~= spec_v3_template());
    }
    let mut entries: Vec<HistoryEntry> = Vec::new();
    entries.push(HistoryEntry { token: VersionToken::Unstable, template: ut });
    entries.push(
        HistoryEntry { token: VersionToken::Stable(ProtocolVersion::new(1, 0)), template: r0t },
    );
    entries.push(
        HistoryEntry { token: VersionToken::Stable(ProtocolVersion::new(1, 1)), template: v3t },
    );
    let history = History::new(entries);
    proof {
        assert(history@ =~= spec_history());
    }
    EndpointMetadata::new(Method::Get, false, AuthScheme::NoAuth, history)
}

/// Request type for the `get_profile` endpoint.
pub struct Request {
    /// The user whose profile will be retrieved.
    pub user_id: String,
}

impl Request {
    /// Creates a new `Request` with the given user ID.
    pub fn new(user_id: String) -> (r: Self)
        ensures
            r.user_id == user_id,
    {
        Request { user_id }
    }
}

/// Response type for the `get_profile` endpoint.
pub struct Response {
    /// The user's avatar URL, if set.
    pub avatar_url: Option<String>,
    /// The user's display name, if set.
    pub displayname: Option<String>,
    /// The timezone the user is in, if set.
    pub tz: Option<String>,
}

impl Response {
    /// Creates a new `Response` with the given avatar URL and display
    /// name, and no timezone.
    pub fn new(avatar_url: Option<String>, displayname: Option<String>) -> (r: Self)
        ensures
            r.avatar_url == avatar_url,
            r.displayname == displayname,
            r.tz is None,
    {
        Response { avatar_url, displayname, tz: None }
    }
}

impl Default for Response {
    fn default() -> (r: Self)
        ensures
            r.avatar_url is None,
            r.displayname is None,
            r.tz is None,
    {
        Response { avatar_url: None, displayname: None, tz: None }
    }
}

} // verus!
