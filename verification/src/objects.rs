//! Value objects describing the repository-mining domain: projects,
//! commits, users, paths, content snapshots, branch heads and changes.

use vstd::prelude::*;
use crate::ids::{CommitId, PathId, ProjectId, SnapshotId, UserId};

verus! {

/// A project: an id paired with its clone URL.
#[derive(PartialEq, Eq, Debug)]
pub struct Project {
    pub id: ProjectId,
    pub url: String,
}

impl Project {
    pub fn new(id: ProjectId, url: String) -> (r: Project)
        ensures
            r.id == id,
            r.url == url,
    {
        Project { id, url }
    }

    pub fn id(&self) -> (r: ProjectId)
        ensures
            r == self.id,
    {
        self.id
    }

    pub fn url(&self) -> (r: &String)
        ensures
            r == &self.url,
    {
        &self.url
    }
}

impl Clone for Project {
    fn clone(&self) -> (r: Self)
        ensures
            r == *self,
    {
        Project { id: self.id, url: self.url.clone() }
    }
}

/// A named branch head: the branch name and the commit it points at.
#[derive(PartialEq, Eq, Debug)]
pub struct Head {
    pub name: String,
    pub commit: CommitId,
}

impl Head {
    pub fn new(name: String, commit: CommitId) -> (r: Head)
        ensures
            r.name == name,
            r.commit == commit,
    {
        Head { name, commit }
    }

    pub fn name(&self) -> (r: &String)
        ensures
            r == &self.name,
    {
        &self.name
    }

    pub fn commit_id(&self) -> (r: CommitId)
        ensures
            r == self.commit,
    {
        self.commit
    }
}

impl Clone for Head {
    fn clone(&self) -> (r: Self)
        ensures
            r == *self,
    {
        Head { name: self.name.clone(), commit: self.commit }
    }
}

/// A commit: its author, its committer and its parent commits.
#[derive(PartialEq, Eq, Debug)]
pub struct Commit {
    pub id: CommitId,
    pub committer: UserId,
    pub author: UserId,
    pub parents: Vec<CommitId>,
}

impl Commit {
    pub fn new(id: CommitId, committer: UserId, author: UserId, parents: Vec<CommitId>) -> (r:
        Commit)
        ensures
            r == (Commit { id, committer, author, parents }),
    {
        Commit { id, committer, author, parents }
    }

    pub fn id(&self) -> (r: CommitId)
        ensures
            r == self.id,
    {
        self.id
    }

    pub fn committer_id(&self) -> (r: UserId)
        ensures
            r == self.committer,
    {
        self.committer
    }

    pub fn author_id(&self) -> (r: UserId)
        ensures
            r == self.author,
    {
        self.author
    }

    pub fn parent_ids(&self) -> (r: &Vec<CommitId>)
        ensures
            r == &self.parents,
    {
        &self.parents
    }
}

/// The view of a `Head`: the branch name's characters and the commit's
/// number.
pub ghost struct HeadV {
    pub name: Seq<char>,
    pub commit: u64,
}

impl Head {
    /// The mathematical value of a head.
    pub open spec fn hv(self) -> HeadV {
        HeadV { name: self.name@, commit: self.commit.0 }
    }
}

impl Commit {
    /// The mathematical value of a commit: plain integers and an integer
    /// sequence, so that two commits with equal views are interchangeable
    /// in every contract.
    pub open spec fn cv(self) -> CommitV {
        CommitV {
            id: self.id.0,
            committer: self.committer.0,
            author: self.author.0,
            parents: self.parents@.map(|i: int, p: CommitId| p.0),
        }
    }
}

/// The view of a `Commit`.
pub ghost struct CommitV {
    pub id: u64,
    pub committer: u64,
    pub author: u64,
    pub parents: Seq<u64>,
}

impl Clone for Commit {
    fn clone(&self) -> (r: Self)
        ensures
            r.cv() == self.cv(),
    {
        let parents = self.parents.clone();
        proof {
            assert forall|i: int| 0 <= i < parents@.len() implies parents@[i]
                == self.parents@[i] by {
                assert(vstd::pervasive::cloned::<CommitId>(self.parents[i], parents[i]));
            }
            assert(parents@ =~= self.parents@);
            assert(parents@.map(|i: int, p: CommitId| p.0) =~= self.parents@.map(
                |i: int, p: CommitId| p.0,
            ));
        }
        Commit { id: self.id, committer: self.committer, author: self.author, parents }
    }
}

/// A user: an id paired with an email.
#[derive(PartialEq, Eq, Debug)]
pub struct User {
    pub id: UserId,
    pub email: String,
}

impl User {
    pub fn new(id: UserId, email: String) -> (r: User)
        ensures
            r.id == id,
            r.email == email,
    {
        User { id, email }
    }

    pub fn id(&self) -> (r: UserId)
        ensures
            r == self.id,
    {
        self.id
    }

    pub fn email(&self) -> (r: &String)
        ensures
            r == &self.email,
    {
        &self.email
    }
}

impl Clone for User {
    fn clone(&self) -> (r: Self)
        ensures
            r == *self,
    {
        User { id: self.id, email: self.email.clone() }
    }
}

/// A file path: an id paired with its string location.
#[derive(PartialEq, Eq, Debug)]
pub struct Path {
    pub id: PathId,
    pub location: String,
}

impl Path {
    pub fn new(id: PathId, location: String) -> (r: Path)
        ensures
            r.id == id,
            r.location == location,
    {
        Path { id, location }
    }

    pub fn id(&self) -> (r: PathId)
        ensures
            r == self.id,
    {
        self.id
    }

    pub fn location(&self) -> (r: &String)
        ensures
            r == &self.location,
    {
        &self.location
    }
}

impl Clone for Path {
    fn clone(&self) -> (r: Self)
        ensures
            r == *self,
    {
        Path { id: self.id, location: self.location.clone() }
    }
}

/// A file-content snapshot: an id paired with the raw bytes.
#[derive(PartialEq, Eq, Debug)]
pub struct Snapshot {
    pub id: SnapshotId,
    pub contents: Vec<u8>,
}

impl Snapshot {
    pub fn new(id: SnapshotId, contents: Vec<u8>) -> (r: Snapshot)
        ensures
            r.id == id,
            r.contents == contents,
    {
        Snapshot { id, contents }
    }

    pub fn id(&self) -> (r: SnapshotId)
        ensures
            r == self.id,
    {
        self.id
    }

    pub fn raw_contents(&self) -> (r: &Vec<u8>)
        ensures
            r == &self.contents,
    {
        &self.contents
    }
}

/// One changed path within a commit, with the content snapshot the change
/// wrote, when the dataset has it.
#[derive(PartialEq, Eq, Structural, Debug, Clone, Copy)]
pub struct Change {
    pub path: PathId,
    pub snapshot: Option<SnapshotId>,
}

impl Change {
    pub fn new(path: PathId, snapshot: Option<SnapshotId>) -> (r: Change)
        ensures
            r.path == path,
            r.snapshot == snapshot,
    {
        Change { path, snapshot }
    }

    pub fn path_id(&self) -> (r: PathId)
        ensures
            r == self.path,
    {
        self.path
    }

    pub fn snapshot_id(&self) -> (r: Option<SnapshotId>)
        ensures
            r == self.snapshot,
    {
        self.snapshot
    }
}

/// A span of time in seconds, used for experience and lifetime values.
#[derive(PartialEq, Eq, Structural, Debug, Clone, Copy, Hash)]
pub struct Duration {
    pub seconds: u64,
}

impl Duration {
    pub fn as_secs(&self) -> (r: u64)
        ensures
            r == self.seconds,
    {
        self.seconds
    }
}

impl From<u64> for Duration {
    fn from(seconds: u64) -> (r: Self) {
        Duration { seconds }
    }
}

impl vstd::std_specs::convert::FromSpecImpl<u64> for Duration {
    open spec fn obeys_from_spec() -> bool {
        true
    }

    open spec fn from_spec(seconds: u64) -> Self {
        Duration { seconds }
    }
}

/// The per-project facts taken from the forge's metadata record.  Every
/// field is optional: the dataset is sparse by nature, and an absent field
/// is a missing value, never an error.
#[derive(PartialEq, Eq, Debug)]
pub struct ProjectMetadata {
    pub is_fork: Option<bool>,
    pub is_archived: Option<bool>,
    pub is_disabled: Option<bool>,
    pub star_count: Option<u64>,
    pub watcher_count: Option<u64>,
    pub size: Option<u64>,
    pub open_issue_count: Option<u64>,
    pub fork_count: Option<u64>,
    pub subscriber_count: Option<u64>,
    pub license: Option<String>,
    pub language: Option<String>,
    pub description: Option<String>,
    pub homepage: Option<String>,
    pub has_issues: Option<bool>,
    pub has_downloads: Option<bool>,
    pub has_wiki: Option<bool>,
    pub has_pages: Option<bool>,
    pub created: Option<i64>,
    pub updated: Option<i64>,
    pub pushed: Option<i64>,
    pub master: Option<String>,
    pub issue_count: Option<u64>,
    pub buggy_issue_count: Option<u64>,
}

impl ProjectMetadata {
    /// A record with every field absent.
    pub fn empty() -> (r: ProjectMetadata)
        ensures
            r == ProjectMetadata::empty_spec(),
    {
        ProjectMetadata {
            is_fork: None,
            is_archived: None,
            is_disabled: None,
            star_count: None,
            watcher_count: None,
            size: None,
            open_issue_count: None,
            fork_count: None,
            subscriber_count: None,
            license: None,
            language: None,
            description: None,
            homepage: None,
            has_issues: None,
            has_downloads: None,
            has_wiki: None,
            has_pages: None,
            created: None,
            updated: None,
            pushed: None,
            master: None,
            issue_count: None,
            buggy_issue_count: None,
        }
    }

    pub open spec fn empty_spec() -> ProjectMetadata {
        ProjectMetadata {
            is_fork: None,
            is_archived: None,
            is_disabled: None,
            star_count: None,
            watcher_count: None,
            size: None,
            open_issue_count: None,
            fork_count: None,
            subscriber_count: None,
            license: None,
            language: None,
            description: None,
            homepage: None,
            has_issues: None,
            has_downloads: None,
            has_wiki: None,
            has_pages: None,
            created: None,
            updated: None,
            pushed: None,
            master: None,
            issue_count: None,
            buggy_issue_count: None,
        }
    }
}

fn clone_opt_string(s: &Option<String>) -> (r: Option<String>)
    ensures
        r == *s,
{
    match s {
        Some(v) => Some(v.clone()),
        None => None,
    }
}

impl Clone for ProjectMetadata {
    fn clone(&self) -> (r: Self)
        ensures
            r == *self,
    {
        ProjectMetadata {
            is_fork: self.is_fork,
            is_archived: self.is_archived,
            is_disabled: self.is_disabled,
            star_count: self.star_count,
            watcher_count: self.watcher_count,
            size: self.size,
            open_issue_count: self.open_issue_count,
            fork_count: self.fork_count,
            subscriber_count: self.subscriber_count,
            license: clone_opt_string(&self.license),
            language: clone_opt_string(&self.language),
            description: clone_opt_string(&self.description),
            homepage: clone_opt_string(&self.homepage),
            has_issues: self.has_issues,
            has_downloads: self.has_downloads,
            has_wiki: self.has_wiki,
            has_pages: self.has_pages,
            created: self.created,
            updated: self.updated,
            pushed: self.pushed,
            master: clone_opt_string(&self.master),
            issue_count: self.issue_count,
            buggy_issue_count: self.buggy_issue_count,
        }
    }
}

/// The view of a commit's primitive store record.
pub ghost struct CommitBasicsV {
    pub committer: u64,
    pub committer_time: i64,
    pub author: u64,
    pub author_time: i64,
    pub parents: Seq<u64>,
    pub changes: Seq<(u64, u64)>,
    pub message: Seq<char>,
}

} // verus!
