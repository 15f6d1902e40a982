//! Version resolution: picking the one path template of an endpoint's
//! history that a caller's supported versions select.
//!
//! The history is scanned from the most recent entry to the least
//! recent.  A `Stable` or `Deprecated` entry whose version the supported
//! set reaches is chosen.  A `Removed` entry whose version the supported
//! set reaches ends the scan with no match: every older shape is gone
//! for such callers.  The `Unstable` entry, which stands first in a
//! well-formed history, is reached last and is chosen only when unstable
//! access was requested, so a selectable stable shape is always
//! preferred over the unstable one.

use vstd::prelude::*;
use crate::metadata::History;
use crate::metadata::HistoryEntryView;
use crate::template::PathTemplate;
use crate::template::SegmentView;
use crate::version::ProtocolVersion;
use crate::version::SupportedVersions;
use crate::version::VersionToken;
use crate::version::spec_reaches;

verus! {

/// Failure of version resolution.
#[derive(Clone, Copy, PartialEq, Eq, Structural, Debug)]
pub enum ResolutionError {
    /// No history entry satisfies the requested and supported versions.
    NoMatchingVersion,
}

/// The template the scan selects, or `None` when no entry is eligible.
pub open spec fn spec_resolve(
    h: Seq<HistoryEntryView>,
    allow_unstable: bool,
    supported: Seq<ProtocolVersion>,
) -> Option<Seq<SegmentView>>
    decreases h.len(),
{
    if h.len() == 0 {
        None
    } else {
        let last = h[h.len() - 1];
        match last.token {
            VersionToken::Removed(v) => if spec_reaches(supported, v) {
                None
            } else {
                spec_resolve(h.drop_last(), allow_unstable, supported)
            },
            VersionToken::Stable(v) => if spec_reaches(supported, v) {
                Some(last.template)
            } else {
                spec_resolve(h.drop_last(), allow_unstable, supported)
            },
            VersionToken::Deprecated(v) => if spec_reaches(supported, v) {
                Some(last.template)
            } else {
                spec_resolve(h.drop_last(), allow_unstable, supported)
            },
            VersionToken::Unstable => if allow_unstable {
                Some(last.template)
            } else {
                spec_resolve(h.drop_last(), allow_unstable, supported)
            },
        }
    }
}

/// Picks the path template of `history` for a caller that supports
/// `supported`, taking the unstable shape only when `allow_unstable` is
/// set.  Pure: the result depends on the arguments alone.
pub fn resolve<'a>(
    history: &'a History,
    allow_unstable: bool,
    supported: &SupportedVersions,
) -> (r: Result<&'a PathTemplate, ResolutionError>)
    ensures
        match r {
            Ok(t) => spec_resolve(history@, allow_unstable, supported.versions@) == Some(t@),
            Err(e) => spec_resolve(history@, allow_unstable, supported.versions@) is None && e
                == ResolutionError::NoMatchingVersion,
        },
{
    let ghost h = history@;
    let mut i: usize = history.entries.len();
    proof {
        assert(h.take(i as int) =~= h);
    }
    while i > 0
        invariant
            i <= history.entries.len(),
            h == history@,
            spec_resolve(h, allow_unstable, supported.versions@) == spec_resolve(
                h.take(i as int),
                allow_unstable,
                supported.versions@,
            ),
        decreases i,
    {
        let entry = &history.entries[i - 1];
        proof {
            assert(h.take(i as int).len() == i);
            assert(h.take(i as int)[i - 1] == h[i - 1]);
            assert(h.take(i as int).drop_last() =~= h.take(i - 1));
        }
        match &entry.token {
            VersionToken::Removed(v) => {
                if supported.reaches(v) {
                    return Err(ResolutionError::NoMatchingVersion);
                }
            },
            VersionToken::Stable(v) => {
                if supported.reaches(v) {
                    return Ok(&entry.template);
                }
            },
            VersionToken::Deprecated(v) => {
                if supported.reaches(v) {
                    return Ok(&entry.template);
                }
            },
            VersionToken::Unstable => {
                if allow_unstable {
                    return Ok(&entry.template);
                }
            },
        }
        i = i - 1;
    }
    proof {
        assert(h.take(0) =~= Seq::<HistoryEntryView>::empty());
    }
    Err(ResolutionError::NoMatchingVersion)
}

/// Whether a token is a stable or deprecated shape whose version the
/// supported set reaches.
pub open spec fn spec_selectable(t: VersionToken, supported: Seq<ProtocolVersion>) -> bool {
    match t {
        VersionToken::Stable(v) => spec_reaches(supported, v),
        VersionToken::Deprecated(v) => spec_reaches(supported, v),
        _ => false,
    }
}

/// Whether the entry at index `j` is a removal whose version the
/// supported set reaches.
pub open spec fn spec_removal_reached(
    h: Seq<HistoryEntryView>,
    supported: Seq<ProtocolVersion>,
    j: int,
) -> bool {
    match h[j].token {
        VersionToken::Removed(v) => spec_reaches(supported, v),
        _ => false,
    }
}

/// Whether some entry after index `i` is a removal whose version the
/// supported set reaches.
pub open spec fn spec_removed_after(
    h: Seq<HistoryEntryView>,
    supported: Seq<ProtocolVersion>,
    i: int,
) -> bool {
    exists|j: int| i < j < h.len() && #[trigger] spec_removal_reached(h, supported, j)
}

/// Whether the entry at index `i` can be the resolution: a reached
/// stable or deprecated shape that no later reached removal shadows.
pub open spec fn spec_eligible(
    h: Seq<HistoryEntryView>,
    supported: Seq<ProtocolVersion>,
    i: int,
) -> bool {
    0 <= i < h.len() && spec_selectable(h[i].token, supported) && !spec_removed_after(
        h,
        supported,
        i,
    )
}

/// When the last entry is no reached removal, a reached removal after
/// `i` survives dropping it, and conversely.
proof fn lemma_removed_after_drop(
    h: Seq<HistoryEntryView>,
    supported: Seq<ProtocolVersion>,
    i: int,
)
    requires
        h.len() > 0,
        0 <= i,
        !spec_removal_reached(h, supported, h.len() - 1),
    ensures
        spec_removed_after(h, supported, i) <==> spec_removed_after(h.drop_last(), supported, i),
{
    let dropped = h.drop_last();
    assert(forall|j: int| 0 <= j < dropped.len() ==> dropped[j] == h[j]);
    if spec_removed_after(h, supported, i) {
        let j = choose|j: int| i < j < h.len() && #[trigger] spec_removal_reached(h, supported, j);
        assert(j < h.len() - 1);
        assert(spec_removal_reached(dropped, supported, j));
        assert(spec_removed_after(dropped, supported, i));
    }
    if spec_removed_after(dropped, supported, i) {
        let j = choose|j: int|
            i < j < dropped.len() && #[trigger] spec_removal_reached(dropped, supported, j);
        assert(spec_removal_reached(h, supported, j));
        assert(spec_removed_after(h, supported, i));
    }
}

/// Tie-break: the scan yields the most recent eligible entry.  If `i`
/// is eligible and no later entry is, the resolution is `i`'s
/// template — so never more than one template is selected, and an
/// eligible stable shape is preferred over the unstable one.
pub proof fn lemma_resolve_most_recent_eligible(
    h: Seq<HistoryEntryView>,
    allow_unstable: bool,
    supported: Seq<ProtocolVersion>,
    i: int,
)
    requires
        forall|k: int| 0 < k < h.len() ==> !((#[trigger] h[k].token) is Unstable),
        spec_eligible(h, supported, i),
        forall|j: int| i < j < h.len() ==> !spec_eligible(h, supported, j),
    ensures
        spec_resolve(h, allow_unstable, supported) == Some(h[i].template),
    decreases h.len(),
{
    let last = h[h.len() - 1];
    if i == h.len() - 1 {
        assert(spec_selectable(last.token, supported));
        assert(spec_resolve(h, allow_unstable, supported) == Some(last.template));
    } else {
        if spec_removal_reached(h, supported, h.len() - 1) {
            assert(spec_removed_after(h, supported, i));
            assert(false);
        }
        if spec_selectable(last.token, supported) {
            assert(!spec_removed_after(h, supported, h.len() - 1));
            assert(spec_eligible(h, supported, h.len() - 1));
            assert(false);
        }
        let dropped = h.drop_last();
        assert(forall|j: int| 0 <= j < dropped.len() ==> dropped[j] == h[j]);
        assert(!(last.token is Unstable)) by {
            if last.token is Unstable {
                assert(h.len() - 1 == 0);
                assert(i < 0);
            }
        }
        assert(spec_resolve(h, allow_unstable, supported) == spec_resolve(
            dropped,
            allow_unstable,
            supported,
        ));
        lemma_removed_after_drop(h, supported, i);
        assert(spec_eligible(dropped, supported, i));
        assert forall|j: int| i < j < dropped.len() implies !spec_eligible(
            dropped,
            supported,
            j,
        ) by {
            assert(!spec_eligible(h, supported, j));
            if spec_selectable(dropped[j].token, supported) {
                assert(spec_removed_after(h, supported, j));
                lemma_removed_after_drop(h, supported, j);
            }
        }
        lemma_resolve_most_recent_eligible(dropped, allow_unstable, supported, i);
    }
}

/// Unstable fallback, in general: when no entry is eligible, the
/// unstable shape is chosen exactly when it is present, was asked for,
/// and no reached removal stands after it; otherwise nothing is.
pub proof fn lemma_resolve_no_eligible(
    h: Seq<HistoryEntryView>,
    allow_unstable: bool,
    supported: Seq<ProtocolVersion>,
)
    requires
        forall|k: int| 0 < k < h.len() ==> !((#[trigger] h[k].token) is Unstable),
        forall|i: int| 0 <= i < h.len() ==> !spec_eligible(h, supported, i),
    ensures
        spec_resolve(h, allow_unstable, supported) == (if h.len() > 0 && h[0].token is Unstable
            && allow_unstable && !spec_removed_after(h, supported, 0) {
            Some(h[0].template)
        } else {
            None::<Seq<SegmentView>>
        }),
    decreases h.len(),
{
    if h.len() == 0 {
        return ;
    }
    let last = h[h.len() - 1];
    let dropped = h.drop_last();
    assert(forall|j: int| 0 <= j < dropped.len() ==> dropped[j] == h[j]);
    if spec_removal_reached(h, supported, h.len() - 1) {
        assert(spec_resolve(h, allow_unstable, supported) is None);
        if h[0].token is Unstable {
            assert(!spec_selectable(h[0].token, supported));
            assert(h.len() > 1) by {
                if h.len() == 1 {
                    assert(spec_removal_reached(h, supported, 0));
                }
            }
            assert(spec_removed_after(h, supported, 0));
        }
        return ;
    }
    if spec_selectable(last.token, supported) {
        assert(!spec_removed_after(h, supported, h.len() - 1));
        assert(spec_eligible(h, supported, h.len() - 1));
        assert(false);
    }
    if last.token is Unstable {
        assert(h.len() == 1);
        assert(!spec_removed_after(h, supported, 0));
        if allow_unstable {
            assert(spec_resolve(h, allow_unstable, supported) == Some(h[0].template));
        } else {
            assert(dropped.len() == 0);
            assert(spec_resolve(h, allow_unstable, supported) is None);
        }
        return ;
    }
    assert(spec_resolve(h, allow_unstable, supported) == spec_resolve(
        dropped,
        allow_unstable,
        supported,
    ));
    assert forall|i: int| 0 <= i < dropped.len() implies !spec_eligible(
        dropped,
        supported,
        i,
    ) by {
        assert(!spec_eligible(h, supported, i));
        if spec_selectable(dropped[i].token, supported) {
            assert(spec_removed_after(h, supported, i));
            lemma_removed_after_drop(h, supported, i);
        }
    }
    lemma_resolve_no_eligible(dropped, allow_unstable, supported);
    if dropped.len() == 0 {
        assert(!(h[0].token is Unstable));
        assert(spec_resolve(h, allow_unstable, supported) is None);
    } else {
        assert(dropped[0] == h[0]);
        lemma_removed_after_drop(h, supported, 0);
    }
}

/// Resolution is deterministic: identical arguments give identical
/// results, however many times and from wherever it is called.
pub proof fn lemma_resolve_deterministic(
    h: Seq<HistoryEntryView>,
    allow_unstable: bool,
    supported: Seq<ProtocolVersion>,
    r1: Option<Seq<SegmentView>>,
    r2: Option<Seq<SegmentView>>,
)
    requires
        r1 == spec_resolve(h, allow_unstable, supported),
        r2 == spec_resolve(h, allow_unstable, supported),
    ensures
        r1 == r2,
{
}

/// Recency preference: of two stable entries both reached by the
/// supported set, the more recent one is chosen.
pub proof fn lemma_recency_preference(
    older: Seq<SegmentView>,
    newer: Seq<SegmentView>,
    allow_unstable: bool,
)
    ensures
        spec_resolve(
            seq![
                HistoryEntryView {
                    token: VersionToken::Stable(ProtocolVersion { major: 1, minor: 0 }),
                    template: older,
                },
                HistoryEntryView {
                    token: VersionToken::Stable(ProtocolVersion { major: 1, minor: 1 }),
                    template: newer,
                },
            ],
            allow_unstable,
            seq![ProtocolVersion { major: 1, minor: 1 }],
        ) == Some(newer),
{
    let sup = seq![ProtocolVersion { major: 1, minor: 1 }];
    assert(spec_reaches(sup, ProtocolVersion { major: 1, minor: 1 })) by {
        assert(crate::version::version_le(
            ProtocolVersion { major: 1, minor: 1 },
            sup[0],
        ));
    }
}

/// Unstable fallback: a history holding only an unstable shape resolves
/// to it exactly when unstable access was requested.
pub proof fn lemma_unstable_fallback(
    unstable_template: Seq<SegmentView>,
    supported: Seq<ProtocolVersion>,
)
    ensures
        spec_resolve(
            seq![HistoryEntryView { token: VersionToken::Unstable, template: unstable_template }],
            true,
            supported,
        ) == Some(unstable_template),
        spec_resolve(
            seq![HistoryEntryView { token: VersionToken::Unstable, template: unstable_template }],
            false,
            supported,
        ) is None,
{
    let h = seq![
        HistoryEntryView { token: VersionToken::Unstable, template: unstable_template },
    ];
    assert(h.len() == 1);
    assert(h[0].token is Unstable);
    assert(h.drop_last() =~= Seq::<HistoryEntryView>::empty());
    assert(spec_resolve(Seq::<HistoryEntryView>::empty(), false, supported) is None);
    assert(spec_resolve(h, true, supported) == Some(h[0].template));
    assert(spec_resolve(h, false, supported) == spec_resolve(h.drop_last(), false, supported));
}

/// Removal enforcement: a caller whose supported set reaches the removed
/// version gets no match even though an older stable entry exists; a
/// caller below the removed version still gets the old shape.
pub proof fn lemma_removal_enforcement(template: Seq<SegmentView>, allow_unstable: bool)
    ensures
        spec_resolve(
            seq![
                HistoryEntryView {
                    token: VersionToken::Stable(ProtocolVersion { major: 1, minor: 0 }),
                    template,
                },
                HistoryEntryView {
                    token: VersionToken::Removed(ProtocolVersion { major: 1, minor: 2 }),
                    template,
                },
            ],
            allow_unstable,
            seq![ProtocolVersion { major: 1, minor: 2 }],
        ) is None,
        spec_resolve(
            seq![
                HistoryEntryView {
                    token: VersionToken::Stable(ProtocolVersion { major: 1, minor: 0 }),
                    template,
                },
                HistoryEntryView {
                    token: VersionToken::Removed(ProtocolVersion { major: 1, minor: 2 }),
                    template,
                },
            ],
            allow_unstable,
            seq![ProtocolVersion { major: 1, minor: 1 }],
        ) == Some(template),
{
    let h = seq![
        HistoryEntryView {
            token: VersionToken::Stable(ProtocolVersion { major: 1, minor: 0 }),
            template,
        },
        HistoryEntryView {
            token: VersionToken::Removed(ProtocolVersion { major: 1, minor: 2 }),
            template,
        },
    ];
    let v12 = ProtocolVersion { major: 1, minor: 2 };
    let v11 = ProtocolVersion { major: 1, minor: 1 };
    let v10 = ProtocolVersion { major: 1, minor: 0 };
    assert(h.len() == 2);
    assert(h[1].token == VersionToken::Removed(v12));
    assert(h[0].token == VersionToken::Stable(v10));
    assert(spec_reaches(seq![v12], v12)) by {
        assert(crate::version::version_le(v12, seq![v12][0]));
    }
    assert(seq![v11][0] == v11);
    assert(seq![v11].len() == 1);
    assert(!spec_reaches(seq![v11], v12));
    let h1 = h.drop_last();
    assert(h1 =~= seq![HistoryEntryView { token: VersionToken::Stable(v10), template }]);
    assert(spec_resolve(h, allow_unstable, seq![v11]) == spec_resolve(
        h1,
        allow_unstable,
        seq![v11],
    ));
    assert(spec_reaches(seq![v11], v10)) by {
        assert(crate::version::version_le(v10, seq![v11][0]));
    }
    assert(h1.len() == 1 && h1[0].token == VersionToken::Stable(v10));
    assert(spec_resolve(h1, allow_unstable, seq![v11]) == Some(h1[0].template));
}

} // verus!
