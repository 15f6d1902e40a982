//! Endpoint metadata: the immutable description of one endpoint, shared
//! by every call to it.

use vstd::prelude::*;
use crate::template::PathTemplate;
use crate::template::SegmentView;
use crate::version::ProtocolVersion;
use crate::version::VersionToken;
use crate::version::version_le;

verus! {

/// The HTTP method of an endpoint.
#[derive(Clone, Copy, PartialEq, Eq, Structural, Debug)]
pub enum Method {
    Get,
    Post,
    Put,
    Delete,
}

/// The declared credential requirement of an endpoint, consumed
/// identically by the outgoing and the incoming marshaler.
#[derive(Clone, Copy, PartialEq, Eq, Structural, Debug)]
pub enum AuthScheme {
    /// No credential is read or sent.
    NoAuth,
    /// An access token must be supplied.
    AccessTokenRequired,
    /// An access token is sent when one is supplied.
    AccessTokenOptional,
    /// The request is authenticated by a server signature, not by an
    /// access token.
    ServerSignatureRequired,
}

/// One entry of an endpoint's history: a version token and the path
/// template in force at it.
pub struct HistoryEntry {
    pub token: VersionToken,
    pub template: PathTemplate,
}

/// The mathematical value of a history entry.
pub struct HistoryEntryView {
    pub token: VersionToken,
    pub template: Seq<SegmentView>,
}

impl View for HistoryEntry {
    type V = HistoryEntryView;

    open spec fn view(&self) -> HistoryEntryView {
        HistoryEntryView { token: self.token, template: self.template@ }
    }
}

/// An endpoint's version history: a list of (token, template) pairs,
/// ordered by increasing recency of introduction.
pub struct History {
    pub entries: Vec<HistoryEntry>,
}

impl View for History {
    type V = Seq<HistoryEntryView>;

    open spec fn view(&self) -> Seq<HistoryEntryView> {
        self.entries@.map(|i: int, e: HistoryEntry| e@)
    }
}

/// The version carried by a `Stable`, `Deprecated` or `Removed` token.
pub open spec fn token_version(t: VersionToken) -> Option<ProtocolVersion> {
    match t {
        VersionToken::Unstable => None,
        VersionToken::Stable(v) => Some(v),
        VersionToken::Deprecated(v) => Some(v),
        VersionToken::Removed(v) => Some(v),
    }
}

/// Well-formedness of a history:
/// the list is non-empty; an `Unstable` entry stands only first, so there
/// is at most one; versioned entries are strictly increasing in
/// `(major, minor)`.
pub open spec fn spec_history_wf(h: Seq<HistoryEntryView>) -> bool {
    &&& h.len() > 0
    &&& forall|i: int| 0 < i < h.len() ==> !(#[trigger] h[i].token is Unstable)
    &&& forall|i: int, j: int|
        0 <= i < j < h.len() && token_version(#[trigger] h[i].token) is Some && token_version(
            #[trigger] h[j].token,
        ) is Some ==> version_le(
            token_version(h[i].token).unwrap(),
            token_version(h[j].token).unwrap(),
        ) && token_version(h[i].token) != token_version(h[j].token)
}

impl History {
    pub open spec fn wf(&self) -> bool {
        spec_history_wf(self@)
    }

    pub fn new(entries: Vec<HistoryEntry>) -> (r: Self)
        ensures
            r@ == entries@.map(|i: int, e: HistoryEntry| e@),
    {
        History { entries }
    }

    /// The view of a history is the entrywise view of its entries.
    pub proof fn lemma_view(&self)
        ensures
            self@.len() == self.entries@.len(),
            forall|j: int| 0 <= j < self@.len() ==> #[trigger] self@[j] == self.entries@[j]@,
    {
        assert(self@.len() == self.entries@.len());
        assert(forall|j: int| 0 <= j < self@.len() ==> #[trigger] self@[j] == self.entries@[j]@);
    }
}

/// The immutable description of one endpoint: HTTP method, rate-limit
/// flag, credential requirement, and version history.  Created once and
/// then only read, so it may be shared freely.
pub struct EndpointMetadata {
    pub method: Method,
    pub rate_limited: bool,
    pub authentication: AuthScheme,
    pub history: History,
}

impl EndpointMetadata {
    pub open spec fn wf(&self) -> bool {
        self.history.wf()
    }

    pub fn new(method: Method, rate_limited: bool, authentication: AuthScheme, history: History) -> (r:
        Self)
        ensures
            r.method == method,
            r.rate_limited == rate_limited,
            r.authentication == authentication,
            r.history == history,
    {
        EndpointMetadata { method, rate_limited, authentication, history }
    }
}

} // verus!
