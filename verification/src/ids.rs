//! Typed integer identifiers for the domain entities.
//!
//! Each entity kind gets its own id type wrapping a 64-bit unsigned
//! integer, so that a `ProjectId` and a `CommitId` with the same numeric
//! value can never be confused: the separation is enforced purely by type.

use vstd::prelude::*;

verus! {

#[derive(Clone, Copy, PartialEq, Eq, Structural, Debug, Hash, PartialOrd, Ord)]
pub struct ProjectId(pub u64);

#[derive(Clone, Copy, PartialEq, Eq, Structural, Debug, Hash, PartialOrd, Ord)]
pub struct CommitId(pub u64);

#[derive(Clone, Copy, PartialEq, Eq, Structural, Debug, Hash, PartialOrd, Ord)]
pub struct UserId(pub u64);

#[derive(Clone, Copy, PartialEq, Eq, Structural, Debug, Hash, PartialOrd, Ord)]
pub struct PathId(pub u64);

#[derive(Clone, Copy, PartialEq, Eq, Structural, Debug, Hash, PartialOrd, Ord)]
pub struct SnapshotId(pub u64);

impl ProjectId {
    pub fn number(self) -> (n: u64)
        ensures
            n == self.0,
    {
        self.0
    }
}

impl CommitId {
    pub fn number(self) -> (n: u64)
        ensures
            n == self.0,
    {
        self.0
    }
}

impl UserId {
    pub fn number(self) -> (n: u64)
        ensures
            n == self.0,
    {
        self.0
    }
}

impl PathId {
    pub fn number(self) -> (n: u64)
        ensures
            n == self.0,
    {
        self.0
    }
}

impl SnapshotId {
    pub fn number(self) -> (n: u64)
        ensures
            n == self.0,
    {
        self.0
    }
}

impl From<u64> for ProjectId {
    fn from(n: u64) -> (r: Self) {
        ProjectId(n)
    }
}

impl vstd::std_specs::convert::FromSpecImpl<u64> for ProjectId {
    open spec fn obeys_from_spec() -> bool {
        true
    }

    open spec fn from_spec(n: u64) -> Self {
        ProjectId(n)
    }
}

impl From<u64> for CommitId {
    fn from(n: u64) -> (r: Self) {
        CommitId(n)
    }
}

impl vstd::std_specs::convert::FromSpecImpl<u64> for CommitId {
    open spec fn obeys_from_spec() -> bool {
        true
    }

    open spec fn from_spec(n: u64) -> Self {
        CommitId(n)
    }
}

impl From<u64> for UserId {
    fn from(n: u64) -> (r: Self) {
        UserId(n)
    }
}

impl vstd::std_specs::convert::FromSpecImpl<u64> for UserId {
    open spec fn obeys_from_spec() -> bool {
        true
    }

    open spec fn from_spec(n: u64) -> Self {
        UserId(n)
    }
}

impl From<u64> for PathId {
    fn from(n: u64) -> (r: Self) {
        PathId(n)
    }
}

impl vstd::std_specs::convert::FromSpecImpl<u64> for PathId {
    open spec fn obeys_from_spec() -> bool {
        true
    }

    open spec fn from_spec(n: u64) -> Self {
        PathId(n)
    }
}

impl From<u64> for SnapshotId {
    fn from(n: u64) -> (r: Self) {
        SnapshotId(n)
    }
}

impl vstd::std_specs::convert::FromSpecImpl<u64> for SnapshotId {
    open spec fn obeys_from_spec() -> bool {
        true
    }

    open spec fn from_spec(n: u64) -> Self {
        SnapshotId(n)
    }
}

} // verus!
