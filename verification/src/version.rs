//! Protocol versions, version tokens, and the per-call set of supported
//! versions.

use vstd::prelude::*;

verus! {

/// A `major.minor` protocol version.
#[derive(Clone, Copy, PartialEq, Eq, Structural, Debug)]
pub struct ProtocolVersion {
    pub major: u8,
    pub minor: u8,
}

/// Order on protocol versions: by major, then by minor.
pub open spec fn version_le(a: ProtocolVersion, b: ProtocolVersion) -> bool {
    a.major < b.major || (a.major == b.major && a.minor <= b.minor)
}

impl ProtocolVersion {
    pub fn new(major: u8, minor: u8) -> (r: Self)
        ensures
            r == (ProtocolVersion { major, minor }),
    {
        ProtocolVersion { major, minor }
    }

    pub fn le(&self, other: &ProtocolVersion) -> (r: bool)
        ensures
            r == version_le(*self, *other),
    {
        self.major < other.major || (self.major == other.major && self.minor <= other.minor)
    }
}

/// The status of one history entry: a marker indicating an endpoint
/// shape's standing at a given protocol version.
#[derive(Clone, Copy, PartialEq, Eq, Structural, Debug)]
pub enum VersionToken {
    /// An experimental shape, selected only on request.
    Unstable,
    /// The shape introduced at the carried version.
    Stable(ProtocolVersion),
    /// Still available, but discouraged, from the carried version on.
    Deprecated(ProtocolVersion),
    /// Gone from the carried version on: the carried template is the one
    /// that was removed.
    Removed(ProtocolVersion),
}

/// The set of protocol versions a caller supports, supplied per call by
/// the negotiating layer.
pub struct SupportedVersions {
    pub versions: Vec<ProtocolVersion>,
}

/// Whether the supported set reaches version `v`: some supported version
/// is at least `v`.  This is the same as `v` being at most the maximum
/// of a non-empty set.
pub open spec fn spec_reaches(supported: Seq<ProtocolVersion>, v: ProtocolVersion) -> bool {
    exists|i: int| 0 <= i < supported.len() && version_le(v, supported[i])
}

impl SupportedVersions {
    pub fn new(versions: Vec<ProtocolVersion>) -> (r: Self)
        ensures
            r.versions@ == versions@,
    {
        SupportedVersions { versions }
    }

    /// Whether some supported version is at least `v`.
    pub fn reaches(&self, v: &ProtocolVersion) -> (r: bool)
        ensures
            r == spec_reaches(self.versions@, *v),
    {
        let mut i: usize = 0;
        while i < self.versions.len()
            invariant
                i <= self.versions.len(),
                forall|j: int| 0 <= j < i ==> !version_le(*v, self.versions@[j]),
            decreases self.versions.len() - i,
        {
            if v.le(&self.versions[i]) {
                return true;
            }
            i = i + 1;
        }
        false
    }
}

} // verus!
