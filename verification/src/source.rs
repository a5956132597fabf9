//! The raw dataset store, at its interface boundary: read-only, id-indexed
//! enumerations of primitive per-entity facts.  The reader that fills this
//! structure from a dataset directory lives outside the library; the
//! loader consumes it and derives every further table from it.

use vstd::prelude::*;
use crate::ids::{CommitId, PathId, UserId};
use crate::objects::{CommitBasicsV, Head, ProjectMetadata};
use crate::sequences::strictly_increasing;

verus! {

/// The primitive facts the store records about one commit.
pub struct CommitBasics {
    pub committer: UserId,
    pub committer_time: i64,
    pub author: UserId,
    pub author_time: i64,
    pub parents: Vec<CommitId>,
    /// Changed paths, each with the content hash the change wrote.
    pub changes: Vec<(PathId, u64)>,
    pub message: String,
}

impl CommitBasics {
    /// The mathematical value of a commit record.
    pub open spec fn bv(self) -> CommitBasicsV {
        CommitBasicsV {
            committer: self.committer.0,
            committer_time: self.committer_time,
            author: self.author.0,
            author_time: self.author_time,
            parents: self.parents@.map(|i: int, p: CommitId| p.0),
            changes: self.changes@.map(|i: int, c: (PathId, u64)| (c.0.0, c.1)),
            message: self.message@,
        }
    }
}

/// The raw store: each field is one key-to-value enumeration with stable
/// integer keys, sorted strictly ascending by key.
pub struct Source {
    /// project id to clone URL.
    pub project_urls: Vec<(u64, String)>,
    /// project id to its named branch heads.
    pub project_heads: Vec<(u64, Vec<Head>)>,
    /// project id to the forge's metadata record.
    pub project_metadata: Vec<(u64, ProjectMetadata)>,
    /// commit id to the commit's primitive facts.
    pub commits: Vec<(u64, CommitBasics)>,
    /// commit id to the commit's hash string.
    pub commit_hashes: Vec<(u64, String)>,
    /// user id to email.
    pub users: Vec<(u64, String)>,
    /// path id to string location.
    pub paths: Vec<(u64, String)>,
    /// content snapshot id to content hash id.
    pub contents: Vec<(u64, u64)>,
    /// content snapshot id to raw bytes.
    pub snapshot_bytes: Vec<(u64, Vec<u8>)>,
}

/// The keys of an enumeration.
pub open spec fn keys_of<T>(rows: Seq<(u64, T)>) -> Seq<u64> {
    rows.map(|i: int, r: (u64, T)| r.0)
}

impl Source {
    /// Every enumeration is sorted strictly ascending by key.
    pub open spec fn wf(self) -> bool {
        &&& strictly_increasing(keys_of(self.project_urls@))
        &&& strictly_increasing(keys_of(self.project_heads@))
        &&& strictly_increasing(keys_of(self.project_metadata@))
        &&& strictly_increasing(keys_of(self.commits@))
        &&& strictly_increasing(keys_of(self.commit_hashes@))
        &&& strictly_increasing(keys_of(self.users@))
        &&& strictly_increasing(keys_of(self.paths@))
        &&& strictly_increasing(keys_of(self.contents@))
        &&& strictly_increasing(keys_of(self.snapshot_bytes@))
    }

    /// An empty store.
    pub fn new() -> (r: Source)
        ensures
            r.wf(),
            r.project_urls@.len() == 0,
            r.project_heads@.len() == 0,
            r.project_metadata@.len() == 0,
            r.commits@.len() == 0,
            r.commit_hashes@.len() == 0,
            r.users@.len() == 0,
            r.paths@.len() == 0,
            r.contents@.len() == 0,
            r.snapshot_bytes@.len() == 0,
    {
        let r = Source {
            project_urls: Vec::new(),
            project_heads: Vec::new(),
            project_metadata: Vec::new(),
            commits: Vec::new(),
            commit_hashes: Vec::new(),
            users: Vec::new(),
            paths: Vec::new(),
            contents: Vec::new(),
            snapshot_bytes: Vec::new(),
        };
        proof {
            assert(r.wf());
        }
        r
    }
}

} // verus!
